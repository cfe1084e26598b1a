use crate::application::AppContext;
use crate::cipher::aes::Aes256Cipher;
use crate::cipher::{Cipher, CipherError};
use crate::pincode::ingest::{
    assemble_upload, contents, readable_chunks, unreadable_chunk, upload_lines,
};
use crate::pincode::lifecycle::{
    expiry_of, pin_code_response, reserve_start, reserve_step, take_start, take_step,
    ReserveAction, ReserveEvent, TakeAction, TakeEvent, RESERVATION_TTL_MILLIS,
};
use crate::pincode::model::repository::{
    distinct_ids, first_match, first_reservation, found, holds_id, lemma_first_match,
    lemma_first_match_is, updated, PinCodeFilter, PinCodeRepository,
    PinCodeReservationRepository, PinCodeUpdate, RepositoryError,
};
use crate::pincode::model::{
    current_millis, hex_of_object_id, object_id_hex, object_id_of_hex, Millis, ObjectId, PinCode,
    PinCodeReservation, PinCodeView, PinStatus,
};
use crate::pincode::utils::{all_decimal_digits, generate_random_pin, is_decimal_digit};
use crate::text::{decimal, push_decimal};
use crate::vault::{
    reply_view, Code, GenerationRequest, IdRequest, PinCodeChunk, PinCodeResponse,
    PinCodeResponseView, ReservationResponse, ReservationResponseView, Status, StatusResponse,
    StatusResponseView, StatusView,
};
use vstd::prelude::*;
use vstd::string::*;
use vstd::utf8::*;

verus! {

/// A request that says nothing.
#[derive(Clone, Copy, Debug, PartialEq, Eq, Structural)]
pub struct Empty {}

/// The vault: the cipher, the store of codes and the log of reservations,
/// and the operations that callers reach them through.
pub struct RustPinCodeVault<C: Cipher> {
    pub cipher: Option<C>,
    pub pincode_repo: PinCodeRepository,
    pub reservation_repo: PinCodeReservationRepository,
}

/// What a store reports of a change, with a failure put in words.
pub fn report_of(outcome: Result<ObjectId, RepositoryError>) -> (report: Result<ObjectId, String>)
    ensures
        match outcome {
            Ok(id) => report == Ok::<ObjectId, String>(id),
            Err(e) => report is Err && report->Err_0@ == e.text(),
        },
{
    match outcome {
        Ok(id) => Ok(id),
        Err(e) => Err(e.message()),
    }
}

/// The stores and the answer after a call to reserve a code at `now`, where
/// the reservation is logged under `drawn`. The first code that may be
/// reserved is held from `now` for three minutes, and the hold is added to
/// the log; nothing is taken out of either store.
pub open spec fn reserve_outcome(
    codes: Seq<PinCodeView>,
    log: Seq<PinCodeReservation>,
    now: Millis,
    drawn: ObjectId,
) -> (Seq<PinCodeView>, Seq<PinCodeReservation>, Result<ReservationResponseView, StatusView>) {
    match first_match(codes, PinCodeFilter::Available { now }) {
        None => (codes, log, Ok(ReservationResponseView::unavailable())),
        Some(i) => match (codes[i].id, expiry_of(now)) {
            (None, _) => (codes, log, Ok(ReservationResponseView::unavailable())),
            (Some(_), None) => (
                codes,
                log,
                Err(StatusView::internal("Failed to reserve pin code: "@, "expiry out of range"@)),
            ),
            (Some(code), Some(expires_at)) => if first_reservation(log, drawn) is Some {
                (
                    codes,
                    log,
                    Err(
                        StatusView::internal(
                            "Failed to insert reservation: "@,
                            RepositoryError::DuplicateId(drawn).text(),
                        ),
                    ),
                )
            } else {
                (
                    codes.update(i, codes[i].reserved(drawn, now, expires_at)),
                    log.push(
                        PinCodeReservation {
                            id: Some(drawn),
                            pincode_id: Some(code),
                            reserved_at: now,
                        },
                    ),
                    Ok(ReservationResponseView::reserved(hex_of_object_id(drawn))),
                )
            },
        },
    }
}

/// The store of codes after `lines` are taken in at `now`, one after the
/// other, where the code of the line at each position gets the identifier at
/// that position of `ids`. A line that `cipher` decrypts becomes an active
/// code; a line that it does not decrypt, or a code whose identifier is
/// taken, is passed over and the next line is tried.
pub open spec fn ingested<C: Cipher>(
    codes: Seq<PinCodeView>,
    cipher: C,
    lines: Seq<Seq<char>>,
    now: Millis,
    ids: Seq<ObjectId>,
) -> Seq<PinCodeView>
    decreases lines.len(),
{
    if lines.len() == 0 {
        codes
    } else {
        let before = ingested(codes, cipher, lines.drop_last(), now, ids);
        match cipher.text_opened(lines.last()) {
            Ok(pin) => PinCodeRepository::inserted(
                before,
                PinCodeView::active(pin, lines.last(), now),
                ids[lines.len() - 1],
            ),
            Err(_) => before,
        }
    }
}

/// Only the identifiers at the positions of `lines` count.
pub proof fn lemma_ingested_ids<C: Cipher>(
    codes: Seq<PinCodeView>,
    cipher: C,
    lines: Seq<Seq<char>>,
    now: Millis,
    ids: Seq<ObjectId>,
    others: Seq<ObjectId>,
)
    requires
        lines.len() <= ids.len(),
        lines.len() <= others.len(),
        forall|i: int| 0 <= i < lines.len() ==> ids[i] == others[i],
    ensures
        ingested(codes, cipher, lines, now, ids) == ingested(codes, cipher, lines, now, others),
    decreases lines.len(),
{
    if lines.len() > 0 {
        lemma_ingested_ids(codes, cipher, lines.drop_last(), now, ids, others);
    }
}

/// Whether `code` is as a generated code is when it enters the store at
/// `now`: active, made at `now`, sixteen decimal digits that its encrypted
/// form decrypts to under `cipher`, and no trace of a reservation or a
/// purchase.
pub open spec fn generated<C: Cipher>(cipher: C, now: Millis, code: PinCodeView) -> bool {
    &&& code == PinCodeView::active(code.pincode, code.encrypted, now).identified(code.id->0)
    &&& code.id is Some
    &&& code.pincode.len() == PIN_LENGTH
    &&& all_decimal_digits(code.pincode)
    &&& cipher.text_opened(code.encrypted) == Ok::<Seq<char>, CipherError>(code.pincode)
}

/// Whether `after` is `before` followed by at most `limit` more codes, each
/// as a code generated under `cipher` at `now` is.
pub open spec fn grown_by_generated<C: Cipher>(
    before: Seq<PinCodeView>,
    after: Seq<PinCodeView>,
    cipher: C,
    now: Millis,
    limit: nat,
) -> bool {
    &&& before.len() <= after.len() <= before.len() + limit
    &&& after.take(before.len() as int) == before
    &&& forall|k: int| before.len() <= k < after.len() ==> generated(cipher, now, #[trigger] after[k])
}

/// What is drawn to make one code: its digits, the encrypted form that the
/// cipher gave for them, and the identifier that the store made for it.
pub struct Draw {
    pub pincode: Seq<char>,
    pub encrypted: Seq<char>,
    pub id: ObjectId,
}

impl Draw {
    /// Whether this can be drawn under `cipher`: sixteen decimal digits and,
    /// where `cipher` encrypts them at all, an encrypted form that it
    /// decrypts to them.
    pub open spec fn drawable<C: Cipher>(self, cipher: C) -> bool {
        &&& self.pincode.len() == PIN_LENGTH
        &&& all_decimal_digits(self.pincode)
        &&& cipher.text_sealable(self.pincode) ==> cipher.text_opened(self.encrypted) == Ok::<
            Seq<char>,
            CipherError,
        >(self.pincode)
    }

    /// The code drawn as it enters the store at `now`.
    pub open spec fn code(self, now: Millis) -> PinCodeView {
        PinCodeView::active(self.pincode, self.encrypted, now)
    }
}

/// The store of codes after a code is made at `now` from each of `draws`,
/// one after the other. Each draw is tried whatever became of the ones
/// before it: digits that `cipher` does not encrypt, or a code whose
/// identifier is taken, are passed over and the next draw is tried.
pub open spec fn generated_from<C: Cipher>(
    codes: Seq<PinCodeView>,
    cipher: C,
    draws: Seq<Draw>,
    now: Millis,
) -> Seq<PinCodeView>
    decreases draws.len(),
{
    if draws.len() == 0 {
        codes
    } else {
        let before = generated_from(codes, cipher, draws.drop_last(), now);
        if cipher.text_sealable(draws.last().pincode) {
            PinCodeRepository::inserted(before, draws.last().code(now), draws.last().id)
        } else {
            before
        }
    }
}

/// Whether `after` is the store `before` once a code was made at `now`
/// from each of `draws`, every one of which can be drawn under `cipher`.
pub open spec fn made_from<C: Cipher>(
    before: Seq<PinCodeView>,
    after: Seq<PinCodeView>,
    cipher: C,
    now: Millis,
    draws: Seq<Draw>,
) -> bool {
    &&& forall|k: int| 0 <= k < draws.len() ==> (#[trigger] draws[k]).drawable(cipher)
    &&& after == generated_from(before, cipher, draws, now)
}

/// The codes that `draws` make at `now`, each under its identifier.
pub open spec fn codes_of(draws: Seq<Draw>, now: Millis) -> Seq<PinCodeView> {
    Seq::new(draws.len(), |k: int| draws[k].code(now).identified(draws[k].id))
}

/// Making codes from draws that follow one another is making them from
/// the first ones and then from the others: what became of a draw has no
/// part in whether a later one is tried.
pub proof fn lemma_generated_from_joined<C: Cipher>(
    codes: Seq<PinCodeView>,
    cipher: C,
    first: Seq<Draw>,
    second: Seq<Draw>,
    now: Millis,
)
    ensures
        generated_from(codes, cipher, first + second, now) == generated_from(
            generated_from(codes, cipher, first, now),
            cipher,
            second,
            now,
        ),
    decreases second.len(),
{
    if second.len() == 0 {
        assert(first + second =~= first);
    } else {
        lemma_generated_from_joined(codes, cipher, first, second.drop_last(), now);
        assert((first + second).drop_last() =~= first + second.drop_last());
    }
}

/// Where nothing is refused, every code asked for is made: where `cipher`
/// encrypts the digits of every draw, and the identifiers drawn are new to
/// the store and differ from one another, the store afterwards is the
/// store before followed by one code for each draw, in the order drawn.
pub proof fn lemma_every_code_is_made_where_none_is_refused<C: Cipher>(
    codes: Seq<PinCodeView>,
    cipher: C,
    draws: Seq<Draw>,
    now: Millis,
)
    requires
        forall|k: int| 0 <= k < draws.len() ==> cipher.text_sealable((#[trigger] draws[k]).pincode),
        forall|k: int| 0 <= k < draws.len() ==> !holds_id(codes, (#[trigger] draws[k]).id),
        forall|j: int, k: int|
            0 <= j < k < draws.len() ==> (#[trigger] draws[j]).id != (#[trigger] draws[k]).id,
    ensures
        generated_from(codes, cipher, draws, now) == codes + codes_of(draws, now),
        generated_from(codes, cipher, draws, now).len() == codes.len() + draws.len(),
    decreases draws.len(),
{
    if draws.len() == 0 {
        assert(codes + codes_of(draws, now) =~= codes);
    } else {
        let earlier = draws.drop_last();
        let last = draws.last();
        assert forall|k: int| 0 <= k < earlier.len() implies cipher.text_sealable(
            (#[trigger] earlier[k]).pincode,
        ) && !holds_id(codes, earlier[k].id) by {
            assert(earlier[k] == draws[k]);
        }
        assert forall|j: int, k: int| 0 <= j < k < earlier.len() implies (#[trigger] earlier[j]).id
            != (#[trigger] earlier[k]).id by {
            assert(earlier[j] == draws[j]);
            assert(earlier[k] == draws[k]);
        }
        lemma_every_code_is_made_where_none_is_refused(codes, cipher, earlier, now);
        let before = codes + codes_of(earlier, now);
        let by_id = PinCodeFilter::Id(last.id);
        lemma_first_match(codes, by_id);
        lemma_first_match(before, by_id);
        assert forall|i: int| 0 <= i < before.len() implies !by_id.admits(#[trigger] before[i]) by {
            if i >= codes.len() {
                let k = i - codes.len();
                assert(before[i] == codes_of(earlier, now)[k]);
                assert(earlier[k] == draws[k]);
                assert(draws[k].id != draws[draws.len() - 1].id);
            } else {
                assert(before[i] == codes[i]);
            }
        }
        assert(!holds_id(before, last.id));
        assert(before.push(last.code(now).identified(last.id)) =~= codes + codes_of(draws, now));
    }
}

/// This cipher encrypts the digits of every generated code: sixteen
/// decimal digits are sixteen bytes, far below what it can seal.
pub proof fn lemma_aes_seals_generated_digits(cipher: Aes256Cipher, pincode: Seq<char>)
    requires
        pincode.len() == PIN_LENGTH,
        all_decimal_digits(pincode),
    ensures
        cipher.text_sealable(pincode),
{
    assert(is_ascii_chars(pincode)) by {
        assert forall|i: int| 0 <= i < pincode.len() implies '\0' <= #[trigger] pincode[i]
            <= '\u{7f}' by {
            assert(is_decimal_digit(pincode[i]));
        }
    }
    is_ascii_chars_encode_utf8(pincode);
}

/// How many codes a request for `count` asks for: none where `count` is
/// negative.
pub open spec fn requested(count: i32) -> nat {
    if count < 0 {
        0
    } else {
        count as nat
    }
}

impl StatusResponseView {
    /// The answer to an upload that was read to its end.
    pub open spec fn uploaded() -> StatusResponseView {
        StatusResponseView { success: true, message: "Upload complete"@ }
    }

    /// The answer to a request for `count` new codes.
    pub open spec fn generated(count: i32) -> StatusResponseView {
        StatusResponseView {
            success: true,
            message: "Generated "@ + decimal(count as int) + " PIN code(s)"@,
        }
    }
}

/// The failure of a call that needs a cipher where the vault has none.
pub open spec fn no_cipher() -> StatusView {
    StatusView { code: Code::Internal, message: "Cipher not initialized"@ }
}

/// Length, in decimal digits, of every generated code.
pub const PIN_LENGTH: usize = 16;

/// The failure of a call that needs a cipher where the vault has none.
pub fn cipher_missing() -> (status: Status)
    ensures
        status@ == no_cipher(),
{
    Status::internal("Cipher not initialized")
}

/// The answer to an upload that was read to its end.
pub fn upload_response() -> (response: StatusResponse)
    ensures
        response@ == StatusResponseView::uploaded(),
{
    StatusResponse { success: true, message: String::from_str("Upload complete") }
}

/// The answer to a request for `count` new codes.
pub fn generation_response(count: i32) -> (response: StatusResponse)
    ensures
        response@ == StatusResponseView::generated(count),
{
    let mut message = String::from_str("Generated ");
    push_decimal(&mut message, count as i64);
    message.append(" PIN code(s)");
    StatusResponse { success: true, message }
}

/// The code that the uploaded line `line` stands for: active from `now`,
/// with the line as its encrypted form and what the line decrypts to under
/// `cipher` as its value. There is none where the line does not decrypt.
pub fn code_of_line<C: Cipher>(cipher: &C, line: String, now: Millis) -> (code: Result<
    PinCode,
    CipherError,
>)
    ensures
        match code {
            Ok(c) => cipher.text_opened(line@) == Ok::<Seq<char>, CipherError>(c@.pincode) && c@
                == PinCodeView::active(c@.pincode, line@, now),
            Err(e) => cipher.text_opened(line@) == Err::<Seq<char>, CipherError>(e),
        },
{
    match cipher.enc_decrypt(line.clone()) {
        Ok(pin) => Ok(PinCode::active(pin, line, now)),
        Err(e) => Err(e),
    }
}

/// A new code, made at `now`: sixteen digits drawn at random, with their
/// encrypted form under `cipher`. It is not made where the cipher does not
/// encrypt it.
pub fn generate_code<C: Cipher>(cipher: &C, now: Millis) -> (code: Result<PinCode, CipherError>)
    ensures
        match code {
            Ok(c) => {
                &&& c@ == PinCodeView::active(c@.pincode, c@.encrypted, now)
                &&& c@.pincode.len() == PIN_LENGTH
                &&& all_decimal_digits(c@.pincode)
                &&& cipher.text_opened(c@.encrypted) == Ok::<Seq<char>, CipherError>(c@.pincode)
                &&& cipher.text_sealable(c@.pincode)
            },
            Err(e) => e == CipherError::PlaintextTooLong && exists|pin: Seq<char>|
                pin.len() == PIN_LENGTH && all_decimal_digits(pin) && !#[trigger] cipher.text_sealable(
                    pin,
                ),
        },
{
    let pin = generate_random_pin(PIN_LENGTH);
    match cipher.enc_encrypt(pin.clone()) {
        Ok(encrypted) => Ok(PinCode::active(pin, encrypted, now)),
        Err(e) => {
            assert(!cipher.text_sealable(pin@));
            Err(e)
        },
    }
}

/// The store of codes and the answer after a call at `now` to redeem the
/// reservation that `reservation_id` spells. The code that the reservation
/// holds is marked purchased and its value given out; where it holds none,
/// nothing changes and no value is given out.
pub open spec fn take_outcome(codes: Seq<PinCodeView>, reservation_id: Seq<char>, now: Millis) -> (
    Seq<PinCodeView>,
    Result<PinCodeResponseView, StatusView>,
) {
    match object_id_of_hex(reservation_id) {
        None => (codes, Ok(PinCodeResponseView::gone())),
        Some(reservation) => match first_match(codes, PinCodeFilter::HeldBy { reservation, now }) {
            None => (codes, Ok(PinCodeResponseView::gone())),
            Some(i) => (
                codes.update(i, codes[i].purchased(now)),
                Ok(PinCodeResponseView::taken(reservation_id, codes[i].pincode)),
            ),
        },
    }
}

/// The answer to a request to see the code that `id` spells.
pub open spec fn lookup_outcome(codes: Seq<PinCodeView>, id: Seq<char>) -> PinCodeResponseView {
    match object_id_of_hex(id) {
        None => PinCodeResponseView::missing(id),
        Some(wanted) => match found(codes, PinCodeFilter::Id(wanted)) {
            Some(code) => PinCodeResponseView::shown(id, code.pincode),
            None => PinCodeResponseView::missing(id),
        },
    }
}

/// A generated code enters the store active, and so may be reserved at
/// any time.
pub proof fn lemma_generated_code_is_active<C: Cipher>(
    cipher: C,
    made_at: Millis,
    code: PinCodeView,
    now: Millis,
)
    requires
        generated(cipher, made_at, code),
    ensures
        code.status == PinStatus::Active,
        code.created_at == Some(made_at),
        code.available_at(now),
{
}

/// A call to reserve that gives out a reservation has held a code that
/// could be reserved: that code is now reserved under the new reservation,
/// from `now` until exactly three minutes later, and whatever it said of
/// an earlier reservation is overwritten. Every other code is as it was.
pub proof fn lemma_reserve_holds_for_three_minutes(
    codes: Seq<PinCodeView>,
    log: Seq<PinCodeReservation>,
    now: Millis,
    drawn: ObjectId,
)
    ensures
        ({
            let (after, logged, reply) = reserve_outcome(codes, log, now, drawn);
            (reply is Ok && reply->Ok_0.success) ==> exists|i: int|
                {
                    &&& 0 <= i < codes.len()
                    &&& (#[trigger] codes[i]).available_at(now)
                    &&& after == codes.update(i, codes[i].reserved(drawn, now, after[i].expires_at->0))
                    &&& after[i].status == PinStatus::Reserved
                    &&& after[i].reservation_id == Some(drawn)
                    &&& after[i].reserved_at == Some(now)
                    &&& after[i].expires_at == Some((now + RESERVATION_TTL_MILLIS) as Millis)
                    &&& now + RESERVATION_TTL_MILLIS <= i64::MAX
                    &&& after[i].held_by(drawn, now)
                    &&& reply->Ok_0.id == hex_of_object_id(drawn)
                }
        }),
{
    lemma_first_match(codes, PinCodeFilter::Available { now });
    let (after, logged, reply) = reserve_outcome(codes, log, now, drawn);
    if reply is Ok && reply->Ok_0.success {
        let i = first_match(codes, PinCodeFilter::Available { now })->0;
        assert(codes[i].available_at(now));
    }
}

/// A call to reserve leaves every reservation ever logged in the log, and
/// adds at most one, at the end. So the record of a hold that has run out
/// stays when its code is reserved anew.
pub proof fn lemma_reserve_keeps_the_log(
    codes: Seq<PinCodeView>,
    log: Seq<PinCodeReservation>,
    now: Millis,
    drawn: ObjectId,
)
    ensures
        ({
            let (after, logged, reply) = reserve_outcome(codes, log, now, drawn);
            &&& after.len() == codes.len()
            &&& logged == log || logged.drop_last() == log
            &&& forall|j: int| 0 <= j < log.len() ==> #[trigger] logged[j] == log[j]
            &&& (reply is Ok && reply->Ok_0.success) ==> logged.len() == log.len() + 1
                && logged.last().id == Some(drawn) && logged.last().reserved_at == now
        }),
{
    lemma_first_match(codes, PinCodeFilter::Available { now });
    let (after, logged, reply) = reserve_outcome(codes, log, now, drawn);
    if logged != log {
        assert(logged.drop_last() =~= log);
    }
}

/// Whether `after` holds the codes of `before`, each with the identifier,
/// the value, the encrypted form and the time of making it had, and none
/// further back in its life than it was.
pub open spec fn moved_forward(before: Seq<PinCodeView>, after: Seq<PinCodeView>) -> bool {
    &&& after.len() == before.len()
    &&& forall|i: int|
        0 <= i < before.len() ==> {
            &&& (#[trigger] after[i]).id == before[i].id
            &&& after[i].pincode == before[i].pincode
            &&& after[i].encrypted == before[i].encrypted
            &&& after[i].created_at == before[i].created_at
            &&& after[i].status.rank() >= before[i].status.rank()
            &&& before[i].status == PinStatus::Purchased ==> after[i] == before[i]
        }
}

/// The calls that reserve and redeem take no code out of the store and
/// move no code back: an active code stays active or becomes reserved, a
/// reserved code stays reserved or becomes purchased, and a purchased
/// code stays as it is.
pub proof fn lemma_codes_only_move_forward(
    codes: Seq<PinCodeView>,
    log: Seq<PinCodeReservation>,
    reservation_id: Seq<char>,
    now: Millis,
    drawn: ObjectId,
)
    ensures
        moved_forward(codes, reserve_outcome(codes, log, now, drawn).0),
        moved_forward(codes, take_outcome(codes, reservation_id, now).0),
{
    lemma_first_match(codes, PinCodeFilter::Available { now });
    if let Some(reservation) = object_id_of_hex(reservation_id) {
        lemma_first_match(codes, PinCodeFilter::HeldBy { reservation, now });
    }
}

/// A code whose reservation has run out may be reserved again, as a code
/// that is active may; a code held by a reservation that has not run out,
/// and a code that is purchased, may not.
pub proof fn lemma_expired_reservation_frees_the_code(code: PinCodeView, now: Millis)
    ensures
        code.status == PinStatus::Active ==> code.available_at(now),
        code.status == PinStatus::Reserved && code.expired_by(now) ==> code.available_at(now),
        code.status == PinStatus::Reserved && !code.expired_by(now) ==> !code.available_at(now),
        code.status == PinStatus::Purchased ==> !code.available_at(now),
{
}

/// The store selects a code exactly where one of its codes is active or
/// reserved with the reservation run out, and the code it selects is such
/// a code.
pub proof fn lemma_selection_finds_what_may_be_reserved(codes: Seq<PinCodeView>, now: Millis)
    ensures
        found(codes, PinCodeFilter::Available { now }) is Some <==> exists|i: int|
            0 <= i < codes.len() && (#[trigger] codes[i]).available_at(now),
        found(codes, PinCodeFilter::Available { now }) matches Some(code) ==> code.available_at(now),
{
    lemma_first_match(codes, PinCodeFilter::Available { now });
    if let Some(i) = first_match(codes, PinCodeFilter::Available { now }) {
        assert(codes[i].available_at(now));
    }
}

/// A reservation that has run out gives out no code: where every code that
/// names the reservation expired before `now`, a call to redeem it changes
/// nothing and answers without success and without a code.
pub proof fn lemma_expired_reservation_gives_no_code(
    codes: Seq<PinCodeView>,
    reservation_id: Seq<char>,
    now: Millis,
)
    requires
        forall|i: int|
            0 <= i < codes.len() && object_id_of_hex(reservation_id) is Some && (
            #[trigger] codes[i]).reservation_id == object_id_of_hex(reservation_id)
                ==> !codes[i].lasts_until(now),
    ensures
        take_outcome(codes, reservation_id, now) == (
            codes,
            Ok::<PinCodeResponseView, StatusView>(PinCodeResponseView::gone()),
        ),
        !PinCodeResponseView::gone().success,
        PinCodeResponseView::gone().pin_code.len() == 0,
{
    if let Some(reservation) = object_id_of_hex(reservation_id) {
        lemma_first_match(codes, PinCodeFilter::HeldBy { reservation, now });
    }
}

/// A call to redeem gives out a code's value only where the reservation
/// holds that code at `now`, and then marks it purchased at `now`.
pub proof fn lemma_take_purchases_what_is_held(
    codes: Seq<PinCodeView>,
    reservation_id: Seq<char>,
    now: Millis,
)
    ensures
        ({
            let (after, reply) = take_outcome(codes, reservation_id, now);
            (reply is Ok && reply->Ok_0.success) ==> exists|i: int|
                {
                    &&& 0 <= i < codes.len()
                    &&& object_id_of_hex(reservation_id) is Some
                    &&& (#[trigger] codes[i]).held_by(object_id_of_hex(reservation_id)->0, now)
                    &&& reply->Ok_0.pin_code == codes[i].pincode
                    &&& after == codes.update(i, codes[i].purchased(now))
                    &&& after[i].status == PinStatus::Purchased
                    &&& after[i].purchased_at == Some(now)
                }
        }),
{
    if let Some(reservation) = object_id_of_hex(reservation_id) {
        lemma_first_match(codes, PinCodeFilter::HeldBy { reservation, now });
        if let Some(i) = first_match(codes, PinCodeFilter::HeldBy { reservation, now }) {
            assert(codes[i].held_by(reservation, now));
        }
    }
}

/// Where one code may be reserved and a call to reserve has run to its
/// end, the next call at that time finds none: of two calls that run one
/// after the other, at most one wins the code.
pub proof fn lemma_one_call_after_another_reserves_once(
    codes: Seq<PinCodeView>,
    log: Seq<PinCodeReservation>,
    now: Millis,
    first: ObjectId,
    second: ObjectId,
    only: int,
)
    requires
        0 <= only < codes.len(),
        forall|i: int| 0 <= i < codes.len() ==> ((#[trigger] codes[i]).available_at(now) <==> i == only),
    ensures
        ({
            let (held, logged, won) = reserve_outcome(codes, log, now, first);
            let (after, _, reply) = reserve_outcome(held, logged, now, second);
            (won is Ok && won->Ok_0.success) ==> after == held && reply == Ok::<
                ReservationResponseView,
                StatusView,
            >(ReservationResponseView::unavailable())
        }),
{
    lemma_first_match(codes, PinCodeFilter::Available { now });
    let (held, logged, won) = reserve_outcome(codes, log, now, first);
    if won is Ok && won->Ok_0.success {
        assert(first_match(codes, PinCodeFilter::Available { now }) == Some(only));
        assert forall|j: int| 0 <= j < held.len() implies !(#[trigger] held[j]).available_at(now) by {
            if j != only {
                assert(held[j] == codes[j]);
            }
        }
        lemma_first_match(held, PinCodeFilter::Available { now });
    }
}

/// The store marks a code by its identifier alone. So where two calls to
/// reserve have both selected the same code before either marks it, each
/// under a reservation of its own that no code names yet, both marks
/// match, both calls win, and the code ends up held by the reservation
/// that marked last; the other reservation holds nothing.
pub proof fn lemma_calls_that_interleave_reserve_twice(
    codes: Seq<PinCodeView>,
    code: ObjectId,
    now: Millis,
    expires_at: Millis,
    first: ObjectId,
    second: ObjectId,
)
    requires
        distinct_ids(codes),
        holds_id(codes, code),
        first != second,
        now <= expires_at,
        forall|j: int| 0 <= j < codes.len() ==> (#[trigger] codes[j]).reservation_id != Some(first),
    ensures
        ({
            let once = updated(
                codes,
                PinCodeFilter::Id(code),
                PinCodeUpdate::Reserve { reservation: first, now, expires_at },
            );
            let twice = updated(
                once,
                PinCodeFilter::Id(code),
                PinCodeUpdate::Reserve { reservation: second, now, expires_at },
            );
            &&& holds_id(once, code)
            &&& found(once, PinCodeFilter::HeldBy { reservation: first, now }) is Some
            &&& found(twice, PinCodeFilter::HeldBy { reservation: second, now }) is Some
            &&& found(twice, PinCodeFilter::HeldBy { reservation: first, now }) is None
        }),
{
    let by_id = PinCodeFilter::Id(code);
    lemma_first_match(codes, by_id);
    let i = first_match(codes, by_id)->0;
    let once = updated(codes, by_id, PinCodeUpdate::Reserve { reservation: first, now, expires_at });
    assert(once[i].id == Some(code));
    assert forall|j: int| 0 <= j < i implies !by_id.admits(#[trigger] once[j]) by {
        assert(once[j] == codes[j]);
    }
    lemma_first_match_is(once, by_id, i);
    let twice = updated(once, by_id, PinCodeUpdate::Reserve { reservation: second, now, expires_at });
    lemma_first_match(once, PinCodeFilter::HeldBy { reservation: first, now });
    assert(once[i].held_by(first, now));
    lemma_first_match(twice, PinCodeFilter::HeldBy { reservation: second, now });
    assert(twice[i].held_by(second, now));
    lemma_first_match(twice, PinCodeFilter::HeldBy { reservation: first, now });
    assert forall|j: int| 0 <= j < twice.len() implies !(#[trigger] twice[j]).held_by(first, now) by {
        if j != i {
            assert(twice[j] == codes[j]);
            assert(codes[j].id != codes[i].id);
        }
    }
}

impl RustPinCodeVault<Aes256Cipher> {
    /// A vault with the cipher of `context` and nothing stored.
    pub fn new(context: &AppContext) -> (vault: Self)
        ensures
            vault.cipher == context.cipher,
            vault.codes() == Seq::<PinCodeView>::empty(),
            vault.reservations() == Seq::<PinCodeReservation>::empty(),
    {
        RustPinCodeVault {
            cipher: context.cipher,
            pincode_repo: PinCodeRepository::new(),
            reservation_repo: PinCodeReservationRepository::new(),
        }
    }
}

impl<C: Cipher> RustPinCodeVault<C> {
    /// The codes in the store, in the order they came in.
    pub open spec fn codes(&self) -> Seq<PinCodeView> {
        self.pincode_repo@
    }

    /// The reservations in the log, in the order they were placed.
    pub open spec fn reservations(&self) -> Seq<PinCodeReservation> {
        self.reservation_repo@
    }

    /// A vault with the given cipher and nothing stored.
    pub fn with_cipher(cipher: Option<C>) -> (vault: Self)
        ensures
            vault.cipher == cipher,
            vault.codes() == Seq::<PinCodeView>::empty(),
            vault.reservations() == Seq::<PinCodeReservation>::empty(),
    {
        RustPinCodeVault {
            cipher,
            pincode_repo: PinCodeRepository::new(),
            reservation_repo: PinCodeReservationRepository::new(),
        }
    }

    /// Shows the code that the request names.
    pub fn get_pin_code(&self, request: IdRequest) -> (reply: Result<PinCodeResponse, Status>)
        ensures
            reply_view(reply) == Ok::<PinCodeResponseView, StatusView>(
                lookup_outcome(self.codes(), request.id@),
            ),
    {
        let found = match self.pincode_repo.find_by_id(request.id.as_str()) {
            Some(code) => Some(code.pincode),
            None => None,
        };
        Ok(pin_code_response(request.id, found))
    }

    /// Reserves a code at `now`: selects one that may be reserved, logs the
    /// hold, marks the code, and gives out the reservation.
    pub fn reserve_pin_code_at(&mut self, now: Millis) -> (reply: Result<
        ReservationResponse,
        Status,
    >)
        ensures
            final(self).cipher == old(self).cipher,
            exists|drawn: ObjectId|
                (final(self).codes(), final(self).reservations(), reply_view(reply))
                    == #[trigger] reserve_outcome(
                    old(self).codes(),
                    old(self).reservations(),
                    now,
                    drawn,
                ),
    {
        let ghost codes = self.pincode_repo@;
        let ghost log = self.reservation_repo@;
        let _ = self.pincode_repo.len();
        let candidate = match self.pincode_repo.find_available_at(now) {
            Some(code) => code.id,
            None => None,
        };
        proof {
            lemma_first_match(codes, PinCodeFilter::Available { now });
        }
        let (state, action) = reserve_step(
            reserve_start(),
            ReserveEvent::Selected { candidate, now },
        );
        let reservation = match action {
            ReserveAction::InsertReservation(reservation) => reservation,
            ReserveAction::Respond(reply) => {
                let ghost any = ObjectId { seconds: 0, unique: 0 };
                assert((self.codes(), self.reservations(), reply_view(reply)) == reserve_outcome(
                    old(self).codes(),
                    old(self).reservations(),
                    now,
                    any,
                ));
                return reply;
            },
            _ => {
                assert(false);
                return Err(Status::internal("Failed to reserve pin code"));
            },
        };
        let recorded = self.reservation_repo.insert_one(reservation);
        let ghost drawn = choose|drawn: ObjectId|
            {
                &&& self.reservation_repo@ == #[trigger] PinCodeReservationRepository::inserted(
                    log,
                    reservation,
                    drawn,
                )
                &&& recorded == if first_reservation(
                    log,
                    PinCodeReservationRepository::id_for(reservation, drawn),
                ) is Some {
                    Err::<ObjectId, RepositoryError>(
                        RepositoryError::DuplicateId(
                            PinCodeReservationRepository::id_for(reservation, drawn),
                        ),
                    )
                } else {
                    Ok::<ObjectId, RepositoryError>(
                        PinCodeReservationRepository::id_for(reservation, drawn),
                    )
                }
            };
        let (state, action) = reserve_step(state, ReserveEvent::Recorded(report_of(recorded)));
        let (id, holder, expires_at) = match action {
            ReserveAction::ReservePinCode { id, reservation, now: _, expires_at } => (
                id,
                reservation,
                expires_at,
            ),
            ReserveAction::Respond(reply) => {
                assert((self.codes(), self.reservations(), reply_view(reply)) == reserve_outcome(
                    old(self).codes(),
                    old(self).reservations(),
                    now,
                    drawn,
                ));
                return reply;
            },
            _ => {
                assert(false);
                return Err(Status::internal("Failed to reserve pin code"));
            },
        };
        let id_text = object_id_hex(id);
        let holder_text = object_id_hex(holder);
        proof {
            let i = first_match(codes, PinCodeFilter::Available { now })->0;
            lemma_first_match_is(codes, PinCodeFilter::Id(id), i);
        }
        let marked = self.pincode_repo.reserve_pincode(
            id_text.as_str(),
            holder_text.as_str(),
            now,
            expires_at,
        );
        let (_, action) = reserve_step(state, ReserveEvent::Marked(report_of(marked)));
        match action {
            ReserveAction::Respond(reply) => {
                assert((self.codes(), self.reservations(), reply_view(reply)) == reserve_outcome(
                    old(self).codes(),
                    old(self).reservations(),
                    now,
                    drawn,
                ));
                reply
            },
            _ => {
                assert(false);
                Err(Status::internal("Failed to reserve pin code"))
            },
        }
    }

    /// Reserves a code at the time of the call.
    pub fn reserve_pin_code(&mut self, _request: Empty) -> (reply: Result<
        ReservationResponse,
        Status,
    >)
        ensures
            final(self).cipher == old(self).cipher,
            exists|now: Millis, drawn: ObjectId|
                (final(self).codes(), final(self).reservations(), reply_view(reply))
                    == #[trigger] reserve_outcome(
                    old(self).codes(),
                    old(self).reservations(),
                    now,
                    drawn,
                ),
    {
        let now = current_millis();
        self.reserve_pin_code_at(now)
    }

    /// Redeems at `now` the reservation that the request names: gives out
    /// the value of the code it holds and marks that code purchased.
    pub fn take_pin_code_at(&mut self, request: IdRequest, now: Millis) -> (reply: Result<
        PinCodeResponse,
        Status,
    >)
        ensures
            final(self).cipher == old(self).cipher,
            final(self).reservations() == old(self).reservations(),
            (final(self).codes(), reply_view(reply)) == take_outcome(
                old(self).codes(),
                request.id@,
                now,
            ),
    {
        let ghost codes = self.pincode_repo@;
        let _ = self.pincode_repo.len();
        let held = match self.pincode_repo.find_by_reservation_id_at(request.id.as_str(), now) {
            Some(code) => match code.id {
                Some(id) => Some((id, code.pincode)),
                None => None,
            },
            None => None,
        };
        proof {
            if let Some(reservation) = object_id_of_hex(request.id@) {
                lemma_first_match(codes, PinCodeFilter::HeldBy { reservation, now });
            }
        }
        let (state, action) = take_step(take_start(request.id), TakeEvent::Resolved { held, now });
        let id = match action {
            TakeAction::PurchasePinCode { id, now: _ } => id,
            TakeAction::Respond(reply) => {
                return reply;
            },
        };
        let id_text = object_id_hex(id);
        proof {
            let reservation = object_id_of_hex(request.id@)->0;
            let i = first_match(codes, PinCodeFilter::HeldBy { reservation, now })->0;
            lemma_first_match_is(codes, PinCodeFilter::Id(id), i);
        }
        let purchased = self.pincode_repo.purchase_pincode(id_text.as_str(), now);
        let (_, action) = take_step(state, TakeEvent::Purchased(report_of(purchased)));
        match action {
            TakeAction::Respond(reply) => reply,
            _ => {
                assert(false);
                Err(Status::internal("Failed to reserve pin code"))
            },
        }
    }

    /// Redeems the reservation that the request names, at the time of the
    /// call.
    pub fn take_pin_code(&mut self, request: IdRequest) -> (reply: Result<PinCodeResponse, Status>)
        ensures
            final(self).cipher == old(self).cipher,
            final(self).reservations() == old(self).reservations(),
            exists|now: Millis|
                (final(self).codes(), reply_view(reply)) == #[trigger] take_outcome(
                    old(self).codes(),
                    request.id@,
                    now,
                ),
    {
        let now = current_millis();
        self.take_pin_code_at(request, now)
    }
}

impl<C: Cipher> RustPinCodeVault<C> {
    /// Takes in an upload at `now`. Every line of it is tried on its own: a
    /// line that does not decrypt, or a code that the store refuses, is
    /// passed over, and the call succeeds once every line has been tried.
    /// The call fails where the vault has no cipher, with nothing done, and
    /// where a chunk is not valid UTF-8, with the lines before that chunk
    /// taken in.
    pub fn upload_pin_codes_at(&mut self, chunks: Vec<PinCodeChunk>, now: Millis) -> (reply: Result<
        StatusResponse,
        Status,
    >)
        ensures
            final(self).cipher == old(self).cipher,
            final(self).reservations() == old(self).reservations(),
            match old(self).cipher {
                None => final(self).codes() == old(self).codes() && reply_view(reply) == Err::<
                    StatusResponseView,
                    StatusView,
                >(no_cipher()),
                Some(cipher) => {
                    &&& exists|ids: Seq<ObjectId>| #[trigger]
                        ids.len() == upload_lines(contents(chunks@)).len() && final(self).codes()
                            == ingested(
                            old(self).codes(),
                            cipher,
                            upload_lines(contents(chunks@)),
                            now,
                            ids,
                        )
                    &&& reply_view(reply) == if readable_chunks(contents(chunks@))
                        == chunks@.len() {
                        Ok::<StatusResponseView, StatusView>(StatusResponseView::uploaded())
                    } else {
                        Err::<StatusResponseView, StatusView>(unreadable_chunk())
                    }
                },
            },
    {
        let cipher = match &self.cipher {
            Some(cipher) => cipher,
            None => {
                return Err(cipher_missing());
            },
        };
        let ghost codes = self.pincode_repo@;
        let (lines, failure) = assemble_upload(&chunks);
        let ghost texts = lines.deep_view();
        let ghost mut ids: Seq<ObjectId> = Seq::empty();
        let mut i: usize = 0;
        assert(texts.take(0) =~= Seq::<Seq<char>>::empty());
        while i < lines.len()
            invariant
                i <= lines@.len(),
                texts == lines.deep_view(),
                ids.len() == i,
                self.pincode_repo@ == ingested(codes, *cipher, texts.take(i as int), now, ids),
                self.reservation_repo@ == old(self).reservation_repo@,
                self.cipher == old(self).cipher,
                old(self).cipher == Some(*cipher),
            decreases lines@.len() - i,
        {
            let ghost before = self.pincode_repo@;
            let ghost earlier = ids;
            assert(texts.take(i + 1).drop_last() =~= texts.take(i as int));
            assert(texts.take(i + 1).last() == lines@[i as int]@);
            match code_of_line(cipher, lines[i].clone(), now) {
                Ok(code) => {
                    let ghost view = code@;
                    let _ = self.pincode_repo.insert_one(code);
                    proof {
                        let drawn = choose|drawn: ObjectId|
                            self.pincode_repo@ == #[trigger] PinCodeRepository::inserted(
                                before,
                                view,
                                drawn,
                            );
                        ids = earlier.push(drawn);
                    }
                },
                Err(_) => {
                    proof {
                        ids = earlier.push(ObjectId { seconds: 0, unique: 0 });
                    }
                },
            }
            proof {
                lemma_ingested_ids(codes, *cipher, texts.take(i as int), now, earlier, ids);
            }
            i = i + 1;
        }
        assert(texts.take(i as int) =~= texts);
        match failure {
            None => Ok(upload_response()),
            Some(status) => Err(status),
        }
    }

    /// Takes in an upload at the time of the call.
    pub fn upload_pin_codes(&mut self, chunks: Vec<PinCodeChunk>) -> (reply: Result<
        StatusResponse,
        Status,
    >)
        ensures
            final(self).cipher == old(self).cipher,
            final(self).reservations() == old(self).reservations(),
            match old(self).cipher {
                None => final(self).codes() == old(self).codes() && reply_view(reply) == Err::<
                    StatusResponseView,
                    StatusView,
                >(no_cipher()),
                Some(cipher) => {
                    &&& exists|now: Millis, ids: Seq<ObjectId>| #[trigger]
                        ids.len() == upload_lines(contents(chunks@)).len() && final(self).codes()
                            == #[trigger] ingested(
                            old(self).codes(),
                            cipher,
                            upload_lines(contents(chunks@)),
                            now,
                            ids,
                        )
                    &&& reply_view(reply) == if readable_chunks(contents(chunks@))
                        == chunks@.len() {
                        Ok::<StatusResponseView, StatusView>(StatusResponseView::uploaded())
                    } else {
                        Err::<StatusResponseView, StatusView>(unreadable_chunk())
                    }
                },
            },
    {
        let now = current_millis();
        self.upload_pin_codes_at(chunks, now)
    }
}

impl<C: Cipher> RustPinCodeVault<C> {
    /// Makes the codes that the request asks for, at `now`: each is sixteen
    /// digits drawn at random, encrypted, and put in the store as an active
    /// code. A code that cannot be encrypted or that the store refuses is
    /// passed over; the call succeeds once every code has been tried. It
    /// fails, with nothing done, where the vault has no cipher.
    pub fn generate_pin_code_at(&mut self, request: GenerationRequest, now: Millis) -> (reply:
        Result<StatusResponse, Status>)
        ensures
            final(self).cipher == old(self).cipher,
            final(self).reservations() == old(self).reservations(),
            match old(self).cipher {
                None => final(self).codes() == old(self).codes() && reply_view(reply) == Err::<
                    StatusResponseView,
                    StatusView,
                >(no_cipher()),
                Some(cipher) => {
                    &&& exists|draws: Seq<Draw>|
                        draws.len() == requested(request.count) && #[trigger] made_from(
                            old(self).codes(),
                            final(self).codes(),
                            cipher,
                            now,
                            draws,
                        )
                    &&& grown_by_generated(
                        old(self).codes(),
                        final(self).codes(),
                        cipher,
                        now,
                        requested(request.count),
                    )
                    &&& reply_view(reply) == Ok::<StatusResponseView, StatusView>(
                        StatusResponseView::generated(request.count),
                    )
                },
            },
    {
        let cipher = match &self.cipher {
            Some(cipher) => cipher,
            None => {
                return Err(cipher_missing());
            },
        };
        let ghost codes = self.pincode_repo@;
        let ghost mut draws: Seq<Draw> = Seq::empty();
        let mut made: i32 = 0;
        assert(codes.take(codes.len() as int) =~= codes);
        while made < request.count
            invariant
                0 <= made,
                made <= requested(request.count),
                draws.len() == made,
                made_from(codes, self.pincode_repo@, *cipher, now, draws),
                grown_by_generated(codes, self.pincode_repo@, *cipher, now, made as nat),
                self.reservation_repo@ == old(self).reservation_repo@,
                self.cipher == old(self).cipher,
                old(self).cipher == Some(*cipher),
            decreases request.count - made,
        {
            let ghost before = self.pincode_repo@;
            let ghost earlier = draws;
            match generate_code(cipher, now) {
                Ok(code) => {
                    let ghost view = code@;
                    let _ = self.pincode_repo.insert_one(code);
                    proof {
                        let drawn = choose|drawn: ObjectId|
                            self.pincode_repo@ == #[trigger] PinCodeRepository::inserted(
                                before,
                                view,
                                drawn,
                            );
                        draws = earlier.push(
                            Draw { pincode: view.pincode, encrypted: view.encrypted, id: drawn },
                        );
                        let after = self.pincode_repo@;
                        assert(after.take(codes.len() as int) =~= before.take(codes.len() as int));
                        assert forall|k: int| codes.len() <= k < after.len() implies generated(
                            *cipher,
                            now,
                            #[trigger] after[k],
                        ) by {
                            if k < before.len() {
                                assert(after[k] == before[k]);
                            }
                        }
                    }
                },
                Err(_) => {
                    proof {
                        let pincode = choose|pin: Seq<char>|
                            pin.len() == PIN_LENGTH && all_decimal_digits(pin) && !#[trigger] cipher.text_sealable(
                                pin,
                            );
                        draws = earlier.push(
                            Draw {
                                pincode,
                                encrypted: Seq::empty(),
                                id: ObjectId { seconds: 0, unique: 0 },
                            },
                        );
                    }
                },
            }
            proof {
                assert(draws.drop_last() =~= earlier);
                assert forall|k: int| 0 <= k < draws.len() implies (#[trigger] draws[k]).drawable(
                    *cipher,
                ) by {
                    if k < earlier.len() {
                        assert(draws[k] == earlier[k]);
                    }
                }
            }
            made = made + 1;
        }
        Ok(generation_response(request.count))
    }

    /// Makes the codes that the request asks for, at the time of the call.
    pub fn generate_pin_code(&mut self, request: GenerationRequest) -> (reply: Result<
        StatusResponse,
        Status,
    >)
        ensures
            final(self).cipher == old(self).cipher,
            final(self).reservations() == old(self).reservations(),
            match old(self).cipher {
                None => final(self).codes() == old(self).codes() && reply_view(reply) == Err::<
                    StatusResponseView,
                    StatusView,
                >(no_cipher()),
                Some(cipher) => {
                    &&& exists|now: Millis, draws: Seq<Draw>|
                        {
                            &&& draws.len() == requested(request.count)
                            &&& #[trigger] made_from(
                                old(self).codes(),
                                final(self).codes(),
                                cipher,
                                now,
                                draws,
                            )
                            &&& grown_by_generated(
                                old(self).codes(),
                                final(self).codes(),
                                cipher,
                                now,
                                requested(request.count),
                            )
                        }
                    &&& reply_view(reply) == Ok::<StatusResponseView, StatusView>(
                        StatusResponseView::generated(request.count),
                    )
                },
            },
    {
        let now = current_millis();
        let reply = self.generate_pin_code_at(request, now);
        proof {
            if let Some(cipher) = old(self).cipher {
                let draws = choose|draws: Seq<Draw>|
                    draws.len() == requested(request.count) && #[trigger] made_from(
                        old(self).codes(),
                        self.codes(),
                        cipher,
                        now,
                        draws,
                    );
                assert(made_from(old(self).codes(), self.codes(), cipher, now, draws));
            }
        }
        reply
    }
}

} // verus!
