use rust_pin_service::pincode::model::repository::{
    PinCodeFilter, PinCodeRepository, PinCodeReservationRepository, PinCodeUpdate,
    RepositoryError,
};
use rust_pin_service::pincode::model::{ObjectId, PinCode, PinCodeReservation, PinStatus};

const A: &str = "0000000a0000000000000001";
const B: &str = "0000000b0000000000000002";
const R1: &str = "650000000000000000000001";
const R2: &str = "650000000000000000000002";

fn id(text: &str) -> ObjectId {
    ObjectId::parse_str(text).unwrap()
}

fn code(id_text: Option<&str>, pin: &str) -> PinCode {
    let mut code = PinCode::active(pin.to_string(), format!("enc-{}", pin), 500);
    code.id = id_text.map(id);
    code
}

fn store_of_two() -> PinCodeRepository {
    let mut store = PinCodeRepository::new();
    assert_eq!(store.insert_one(code(Some(A), "1111")), Ok(id(A)));
    assert_eq!(store.insert_one(code(Some(B), "2222")), Ok(id(B)));
    store
}

#[test]
fn object_id_hex_round_trip() {
    let parsed = id("0123456789abcdef01234567");
    assert_eq!(parsed, ObjectId { seconds: 0x01234567, unique: 0x89abcdef01234567 });
    assert_eq!(parsed.to_hex(), "0123456789abcdef01234567");
    assert_eq!(ObjectId::parse_str("0123456789ABCDEF01234567"), Some(parsed));
    assert_eq!(ObjectId { seconds: 0, unique: 1 }.to_hex(), "000000000000000000000001");
    assert_eq!(ObjectId { seconds: u32::MAX, unique: u64::MAX }.to_hex(), "f".repeat(24));
    assert_eq!(
        ObjectId::parse_str(&bson::oid::ObjectId::from_bytes([1, 2, 3, 4, 5, 6, 7, 8, 9, 10, 11, 12]).to_hex()),
        Some(ObjectId { seconds: 0x01020304, unique: 0x05060708090a0b0c })
    );
}

#[test]
fn object_id_rejects_what_is_not_24_hex_digits() {
    for text in ["", "abc", "0123456789abcdef0123456", "0123456789abcdef012345678", "0123456789abcdef0123456g", "not an id at all, really"] {
        assert_eq!(ObjectId::parse_str(text), None, "{:?}", text);
    }
}

#[test]
fn status_names() {
    assert_eq!(PinStatus::Active.to_string(), "Active");
    assert_eq!(PinStatus::Reserved.to_string(), "Reserved");
    assert_eq!(PinStatus::Purchased.to_string(), "Purchased");
}

#[test]
fn new_code_is_active_and_bare() {
    let code = PinCode::active("1234".to_string(), "c2VhbGVk".to_string(), 42);
    assert_eq!(code.id, None);
    assert_eq!(code.pincode, "1234");
    assert_eq!(code.encrypted, "c2VhbGVk");
    assert_eq!(code.status, PinStatus::Active);
    assert_eq!(code.created_at, Some(42));
    assert_eq!(code.purchased_at, None);
    assert_eq!(code.reserved_at, None);
    assert_eq!(code.reservation_id, None);
    assert_eq!(code.expires_at, None);
}

#[test]
fn availability_follows_status_and_expiry() {
    let mut code = code(Some(A), "1111");
    assert!(code.is_available(0));
    assert!(code.is_available(i64::MAX));
    code.reserve(id(R1), 1000, 2000);
    assert_eq!(code.status, PinStatus::Reserved);
    assert_eq!(code.reserved_at, Some(1000));
    assert_eq!(code.expires_at, Some(2000));
    assert_eq!(code.reservation_id, Some(id(R1)));
    assert_eq!(code.created_at, Some(500));
    assert!(!code.is_available(1000));
    assert!(!code.is_available(1999));
    assert!(code.is_available(2000));
    assert!(code.is_available(2001));
    assert!(code.is_held_by(id(R1), 1000));
    assert!(code.is_held_by(id(R1), 2000));
    assert!(!code.is_held_by(id(R1), 2001));
    assert!(!code.is_held_by(id(R2), 1500));
    code.expires_at = None;
    assert!(!code.is_available(i64::MAX));
    assert!(!code.is_held_by(id(R1), i64::MIN));
    code.expires_at = Some(2000);
    code.purchase(1500);
    assert_eq!(code.status, PinStatus::Purchased);
    assert_eq!(code.purchased_at, Some(1500));
    assert_eq!(code.reserved_at, Some(1000));
    assert_eq!(code.reservation_id, Some(id(R1)));
    assert_eq!(code.expires_at, Some(2000));
    assert!(!code.is_available(i64::MAX));
    assert!(!code.is_held_by(id(R1), 1500));
}

#[test]
fn filters_and_updates() {
    let mut c = code(Some(A), "1111");
    assert!(PinCodeFilter::Id(id(A)).test(&c));
    assert!(!PinCodeFilter::Id(id(B)).test(&c));
    assert!(!PinCodeFilter::Id(id(A)).test(&code(None, "1111")));
    assert!(PinCodeFilter::Available { now: 0 }.test(&c));
    assert!(!PinCodeFilter::HeldBy { reservation: id(R1), now: 0 }.test(&c));
    PinCodeUpdate::Reserve { reservation: id(R1), now: 10, expires_at: 20 }.apply(&mut c);
    assert!(PinCodeFilter::HeldBy { reservation: id(R1), now: 15 }.test(&c));
    assert!(!PinCodeFilter::Available { now: 15 }.test(&c));
    PinCodeUpdate::Purchase { now: 16 }.apply(&mut c);
    assert_eq!(c.status, PinStatus::Purchased);
    assert_eq!(c.purchased_at, Some(16));
}

#[test]
fn insert_assigns_an_id_where_there_is_none() {
    let mut store = PinCodeRepository::new();
    let first = store.insert_one(code(None, "1111")).unwrap();
    let second = store.insert_one(code(None, "2222")).unwrap();
    assert_ne!(first, second);
    assert_eq!(store.len(), 2);
    assert_eq!(store.find_by_id(&first.to_hex()).unwrap().pincode, "1111");
    assert_eq!(store.find_by_id(&second.to_hex()).unwrap().pincode, "2222");
    let all = store.all();
    assert_eq!(all[0].id, Some(first));
    assert_eq!(all[1].id, Some(second));
}

#[test]
fn insert_with_uses_the_drawn_id_only_where_there_is_none() {
    let mut store = PinCodeRepository::new();
    assert_eq!(store.insert_with(code(None, "1111"), id(A)), Ok(id(A)));
    assert_eq!(store.insert_with(code(Some(B), "2222"), id(R1)), Ok(id(B)));
    assert_eq!(store.all()[1].id, Some(id(B)));
    assert_eq!(store.insert_with(code(None, "3333"), id(A)), Err(RepositoryError::DuplicateId(id(A))));
    assert_eq!(store.len(), 2);
}

#[test]
fn insert_refuses_a_taken_id() {
    let mut store = store_of_two();
    assert_eq!(store.insert_one(code(Some(A), "3333")), Err(RepositoryError::DuplicateId(id(A))));
    assert_eq!(store.len(), 2);
    assert_eq!(store.find_by_id(A).unwrap().pincode, "1111");
}

#[test]
fn find_by_id_finds_or_does_not() {
    let store = store_of_two();
    assert_eq!(store.find_by_id(B).unwrap().pincode, "2222");
    assert_eq!(store.find_by_id(B).unwrap().id, Some(id(B)));
    assert!(store.find_by_id(R1).is_none());
    assert!(store.find_by_id("nonsense").is_none());
    assert!(PinCodeRepository::new().find_by_id(A).is_none());
}

#[test]
fn find_available_takes_the_first_that_may_be_reserved() {
    let mut store = store_of_two();
    assert_eq!(store.find_available_at(1000).unwrap().id, Some(id(A)));
    assert_eq!(store.reserve_pincode(A, R1, 1000, 181_000), Ok(id(A)));
    assert_eq!(store.find_available_at(1000).unwrap().id, Some(id(B)));
    assert_eq!(store.find_available_at(180_999).unwrap().id, Some(id(B)));
    assert_eq!(store.find_available_at(181_000).unwrap().id, Some(id(A)));
    assert_eq!(store.purchase_pincode(B, 1000), Ok(id(B)));
    assert!(store.find_available_at(1000).is_none());
    assert_eq!(store.find_available_at(181_000).unwrap().id, Some(id(A)));
    assert_eq!(store.purchase_pincode(A, 1001), Ok(id(A)));
    assert!(store.find_available_at(i64::MAX).is_none());
    assert!(PinCodeRepository::new().find_available_at(0).is_none());
    assert!(PinCodeRepository::new().find_available().is_none());
    assert_eq!(store_of_two().find_available().unwrap().id, Some(id(A)));
}

#[test]
fn find_by_reservation_id_needs_a_live_reservation() {
    let mut store = store_of_two();
    assert!(store.find_by_reservation_id_at(R1, 1000).is_none());
    store.reserve_pincode(B, R1, 1000, 181_000).unwrap();
    assert_eq!(store.find_by_reservation_id_at(R1, 1000).unwrap().id, Some(id(B)));
    assert_eq!(store.find_by_reservation_id_at(R1, 181_000).unwrap().id, Some(id(B)));
    assert!(store.find_by_reservation_id_at(R1, 181_001).is_none());
    assert!(store.find_by_reservation_id_at(R2, 1000).is_none());
    assert!(store.find_by_reservation_id_at("nonsense", 1000).is_none());
    store.reserve_pincode(B, R2, 2000, 182_000).unwrap();
    assert!(store.find_by_reservation_id_at(R1, 2000).is_none());
    assert_eq!(store.find_by_reservation_id_at(R2, 2000).unwrap().id, Some(id(B)));
    store.purchase_pincode(B, 3000).unwrap();
    assert!(store.find_by_reservation_id_at(R2, 3000).is_none());
    assert!(store.find_by_reservation_id(R2).is_none());
}

#[test]
fn reserve_sets_the_reservation_fields_and_nothing_else() {
    let mut store = store_of_two();
    assert_eq!(store.reserve_pincode(A, R1, 1000, 181_000), Ok(id(A)));
    let a = store.find_by_id(A).unwrap();
    assert_eq!(a.status, PinStatus::Reserved);
    assert_eq!(a.reserved_at, Some(1000));
    assert_eq!(a.expires_at, Some(181_000));
    assert_eq!(a.reservation_id, Some(id(R1)));
    assert_eq!(a.pincode, "1111");
    assert_eq!(a.encrypted, "enc-1111");
    assert_eq!(a.created_at, Some(500));
    assert_eq!(a.purchased_at, None);
    let b = store.find_by_id(B).unwrap();
    assert_eq!(b.status, PinStatus::Active);
    assert_eq!(b.reservation_id, None);
    assert_eq!(store.len(), 2);
}

#[test]
fn reserve_does_not_look_at_the_status() {
    let mut store = store_of_two();
    store.reserve_pincode(A, R1, 1000, 181_000).unwrap();
    assert_eq!(store.reserve_pincode(A, R2, 1001, 181_001), Ok(id(A)));
    assert_eq!(store.find_by_id(A).unwrap().reservation_id, Some(id(R2)));
    store.purchase_pincode(A, 1002).unwrap();
    assert_eq!(store.reserve_pincode(A, R1, 1003, 181_003), Ok(id(A)));
    let a = store.find_by_id(A).unwrap();
    assert_eq!(a.status, PinStatus::Reserved);
    assert_eq!(a.purchased_at, Some(1002));
}

#[test]
fn updates_report_unknown_and_malformed_ids() {
    let mut store = store_of_two();
    assert_eq!(store.reserve_pincode(R1, R2, 1, 2), Err(RepositoryError::NotFound));
    assert_eq!(store.purchase_pincode(R1, 1), Err(RepositoryError::NotFound));
    assert_eq!(store.reserve_pincode("x", R2, 1, 2), Err(RepositoryError::InvalidId));
    assert_eq!(store.reserve_pincode(A, "x", 1, 2), Err(RepositoryError::InvalidId));
    assert_eq!(store.purchase_pincode("x", 1), Err(RepositoryError::InvalidId));
    assert_eq!(store.find_by_id(A).unwrap().status, PinStatus::Active);
    assert_eq!(PinCodeRepository::update_outcome(id(A), 1), Ok(id(A)));
    assert_eq!(PinCodeRepository::update_outcome(id(A), 0), Err(RepositoryError::NotFound));
    assert_eq!(PinCodeRepository::update_outcome(id(A), 2), Err(RepositoryError::NotFound));
}

#[test]
fn update_one_says_how_many_it_matched() {
    let mut store = store_of_two();
    let purchase = PinCodeUpdate::Purchase { now: 9 };
    assert_eq!(store.update_one(&PinCodeFilter::Id(id(R1)), &purchase), 0);
    assert_eq!(store.update_one(&PinCodeFilter::Available { now: 0 }, &purchase), 1);
    assert_eq!(store.find_by_id(A).unwrap().status, PinStatus::Purchased);
    assert_eq!(store.find_by_id(B).unwrap().status, PinStatus::Active);
    assert_eq!(store.find_one(&PinCodeFilter::Available { now: 0 }).unwrap().id, Some(id(B)));
}

#[test]
fn error_messages() {
    assert_eq!(RepositoryError::InvalidId.message(), "Invalid ObjectId string");
    assert_eq!(RepositoryError::NotFound.message(), "No matching document found to update");
    assert_eq!(RepositoryError::DuplicateId(id(A)).message(), "Duplicate ObjectId");
}

#[test]
fn reservation_log_inserts_and_finds() {
    let mut log = PinCodeReservationRepository::new();
    let hold = PinCodeReservation { id: None, pincode_id: Some(id(A)), reserved_at: 1000 };
    let first = log.insert_one(hold).unwrap();
    let second = log.insert_one(hold).unwrap();
    assert_ne!(first, second);
    assert_eq!(log.len(), 2);
    assert_eq!(
        log.find_by_id(&first.to_hex()),
        Ok(PinCodeReservation { id: Some(first), pincode_id: Some(id(A)), reserved_at: 1000 })
    );
    assert_eq!(log.find_by_id(R1), Err(RepositoryError::NotFound));
    assert_eq!(log.find_by_id("nonsense"), Err(RepositoryError::NotFound));
    assert_eq!(log.find_by_id(""), Err(RepositoryError::NotFound));
    assert_eq!(log.len(), 2);
    let named = PinCodeReservation { id: Some(id(R1)), pincode_id: None, reserved_at: 7 };
    assert_eq!(log.insert_one(named), Ok(id(R1)));
    assert_eq!(log.insert_one(named), Err(RepositoryError::DuplicateId(id(R1))));
    assert_eq!(log.insert_with(hold, id(R1)), Err(RepositoryError::DuplicateId(id(R1))));
    assert_eq!(log.insert_with(hold, id(R2)), Ok(id(R2)));
    assert_eq!(log.all().len(), 4);
    assert_eq!(log.all()[3], PinCodeReservation { id: Some(id(R2)), pincode_id: Some(id(A)), reserved_at: 1000 });
}

#[test]
fn requests_name_the_code_by_its_id_alone() {
    assert_eq!(
        PinCodeRepository::reserve_request(A, R1, 10, 20),
        Ok((id(A), PinCodeUpdate::Reserve { reservation: id(R1), now: 10, expires_at: 20 }))
    );
    assert_eq!(PinCodeRepository::reserve_request("x", R1, 10, 20), Err(RepositoryError::InvalidId));
    assert_eq!(PinCodeRepository::reserve_request(A, "", 10, 20), Err(RepositoryError::InvalidId));
    assert_eq!(
        PinCodeRepository::purchase_request(B, 30),
        Ok((id(B), PinCodeUpdate::Purchase { now: 30 }))
    );
    assert_eq!(PinCodeRepository::purchase_request("x", 30), Err(RepositoryError::InvalidId));
    assert_eq!(PinCodeRepository::id_filter(A), Some(PinCodeFilter::Id(id(A))));
    assert_eq!(PinCodeRepository::id_filter("x"), None);
    assert_eq!(
        PinCodeRepository::held_by_filter(R1, 5),
        Some(PinCodeFilter::HeldBy { reservation: id(R1), now: 5 })
    );
    assert_eq!(PinCodeRepository::held_by_filter("x", 5), None);
}

#[test]
fn code_keeps_its_own_id_and_takes_the_drawn_one_where_it_has_none() {
    assert_eq!(code(None, "1").with_id_or(id(A)).id, Some(id(A)));
    let kept = code(Some(B), "1").with_id_or(id(A));
    assert_eq!(kept.id, Some(id(B)));
    assert_eq!(kept.pincode, "1");
    assert_eq!(kept.status, PinStatus::Active);
}

#[test]
fn new_object_ids_differ() {
    let first = ObjectId::new();
    let second = ObjectId::new();
    assert_ne!(first, second);
    assert_eq!(ObjectId::parse_str(&first.to_hex()), Some(first));
    assert_eq!(first.to_hex().len(), 24);
}

#[test]
fn object_id_hex_agrees_with_bson() {
    let mut bytes = [0u8; 12];
    let mut seed: u64 = 0x9e3779b97f4a7c15;
    for _ in 0..2000 {
        for b in bytes.iter_mut() {
            seed = seed.wrapping_mul(6364136223846793005).wrapping_add(1442695040888963407);
            *b = (seed >> 33) as u8;
        }
        let theirs = bson::oid::ObjectId::from_bytes(bytes);
        let ours = ObjectId {
            seconds: u32::from_be_bytes([bytes[0], bytes[1], bytes[2], bytes[3]]),
            unique: u64::from_be_bytes([
                bytes[4], bytes[5], bytes[6], bytes[7], bytes[8], bytes[9], bytes[10], bytes[11],
            ]),
        };
        assert_eq!(ours.to_hex(), theirs.to_hex());
        assert_eq!(ObjectId::parse_str(&theirs.to_hex()), Some(ours));
        assert_eq!(ObjectId::parse_str(&theirs.to_hex().to_uppercase()), Some(ours));
    }
}

#[test]
fn object_id_parsing_accepts_what_bson_accepts() {
    let texts = [
        "",
        "0",
        "0123456789abcdef01234567",
        "0123456789ABCDEF01234567",
        "0123456789aBcDeF01234567",
        "0123456789abcdef0123456",
        "0123456789abcdef012345678",
        "0123456789abcdef0123456z",
        "g123456789abcdef01234567",
        " 123456789abcdef01234567",
        "0123456789abcdef0123456 ",
        "+123456789abcdef01234567",
        "0x23456789abcdef01234567",
        "éééééééééééé",
        "0123456789abcdef0123456é",
        "0123456789abcdef012345é",
        "００００００００００００００００００００００００",
        "ffffffffffffffffffffffff",
        "000000000000000000000000",
        "0123456789abcdef0123456789abcdef0123456789abcdef",
    ];
    for text in texts {
        let theirs = bson::oid::ObjectId::parse_str(text).ok().map(|id| id.bytes());
        let ours = ObjectId::parse_str(text).map(|id| {
            let mut bytes = [0u8; 12];
            bytes[..4].copy_from_slice(&id.seconds.to_be_bytes());
            bytes[4..].copy_from_slice(&id.unique.to_be_bytes());
            bytes
        });
        assert_eq!(ours, theirs, "{:?}", text);
    }
}
