use crate::pincode::model::{
    current_millis, fresh_object_id, object_id_of_hex, parse_object_id, Millis, ObjectId, PinCode,
    PinCodeReservation, PinCodeView,
};
use vstd::prelude::*;
use vstd::string::*;

verus! {

/// Why the store did not do what it was asked.
#[derive(Clone, Copy, Debug, PartialEq, Eq, Structural)]
pub enum RepositoryError {
    /// The text given for an identifier does not spell one.
    InvalidId,
    /// No record has the identifier asked for.
    NotFound,
    /// A record with this identifier is in the store already.
    DuplicateId(ObjectId),
}

impl RepositoryError {
    /// What the error says.
    pub open spec fn text(self) -> Seq<char> {
        match self {
            RepositoryError::InvalidId => "Invalid ObjectId string"@,
            RepositoryError::NotFound => "No matching document found to update"@,
            RepositoryError::DuplicateId(_) => "Duplicate ObjectId"@,
        }
    }

    /// What the error says, as text.
    pub fn message(&self) -> (text: String)
        ensures
            text@ == self.text(),
    {
        match self {
            RepositoryError::InvalidId => String::from_str("Invalid ObjectId string"),
            RepositoryError::NotFound => String::from_str("No matching document found to update"),
            RepositoryError::DuplicateId(_) => String::from_str("Duplicate ObjectId"),
        }
    }
}

/// The questions the store of codes is asked. Each can be answered from an
/// index on the identifier or on status and expiry.
#[derive(Clone, Copy, Debug, PartialEq, Eq, Structural)]
pub enum PinCodeFilter {
    /// The code with this identifier.
    Id(ObjectId),
    /// A code that may be reserved at `now`.
    Available { now: Millis },
    /// The code that `reservation` holds at `now`.
    HeldBy { reservation: ObjectId, now: Millis },
}

impl PinCodeFilter {
    /// Whether the filter lets `code` through.
    pub open spec fn admits(self, code: PinCodeView) -> bool {
        match self {
            PinCodeFilter::Id(id) => code.id == Some(id),
            PinCodeFilter::Available { now } => code.available_at(now),
            PinCodeFilter::HeldBy { reservation, now } => code.held_by(reservation, now),
        }
    }

    /// Tests whether the filter lets `code` through.
    pub fn test(&self, code: &PinCode) -> (admitted: bool)
        ensures
            admitted == self.admits(code@),
    {
        match self {
            PinCodeFilter::Id(id) => match code.id {
                Some(own) => own == *id,
                None => false,
            },
            PinCodeFilter::Available { now } => code.is_available(*now),
            PinCodeFilter::HeldBy { reservation, now } => code.is_held_by(*reservation, *now),
        }
    }
}

/// The changes the store makes to a code. Neither looks at the state the
/// code is in: whoever asks for one has read the code before.
#[derive(Clone, Copy, Debug, PartialEq, Eq, Structural)]
pub enum PinCodeUpdate {
    /// Reserve the code under `reservation` from `now` until `expires_at`.
    Reserve { reservation: ObjectId, now: Millis, expires_at: Millis },
    /// Mark the code purchased at `now`.
    Purchase { now: Millis },
}

impl PinCodeUpdate {
    /// The code after the change.
    pub open spec fn applied(self, code: PinCodeView) -> PinCodeView {
        match self {
            PinCodeUpdate::Reserve { reservation, now, expires_at } => code.reserved(
                reservation,
                now,
                expires_at,
            ),
            PinCodeUpdate::Purchase { now } => code.purchased(now),
        }
    }

    /// Makes the change to `code`.
    pub fn apply(&self, code: &mut PinCode)
        ensures
            final(code)@ == self.applied(old(code)@),
    {
        match self {
            PinCodeUpdate::Reserve { reservation, now, expires_at } => code.reserve(
                *reservation,
                *now,
                *expires_at,
            ),
            PinCodeUpdate::Purchase { now } => code.purchase(*now),
        }
    }
}

/// Position of the first of `records` that `filter` lets through.
pub open spec fn first_match(records: Seq<PinCodeView>, filter: PinCodeFilter) -> Option<int>
    decreases records.len(),
{
    if records.len() == 0 {
        None
    } else {
        match first_match(records.drop_last(), filter) {
            Some(i) => Some(i),
            None => if filter.admits(records.last()) {
                Some(records.len() - 1)
            } else {
                None
            },
        }
    }
}

/// The first of `records` that `filter` lets through.
pub open spec fn found(records: Seq<PinCodeView>, filter: PinCodeFilter) -> Option<PinCodeView> {
    match first_match(records, filter) {
        Some(i) => Some(records[i]),
        None => None,
    }
}

/// `records` after `update` is made to the first of them that `filter`
/// lets through.
pub open spec fn updated(
    records: Seq<PinCodeView>,
    filter: PinCodeFilter,
    update: PinCodeUpdate,
) -> Seq<PinCodeView> {
    match first_match(records, filter) {
        Some(i) => records.update(i, update.applied(records[i])),
        None => records,
    }
}

/// Whether one of `records` has the identifier `id`.
pub open spec fn holds_id(records: Seq<PinCodeView>, id: ObjectId) -> bool {
    first_match(records, PinCodeFilter::Id(id)) is Some
}

/// Whether every one of `records` has an identifier and no two share one.
pub open spec fn distinct_ids(records: Seq<PinCodeView>) -> bool {
    &&& forall|i: int| 0 <= i < records.len() ==> (#[trigger] records[i]).id is Some
    &&& forall|i: int, j: int|
        0 <= i < j < records.len() ==> (#[trigger] records[i]).id != (#[trigger] records[j]).id
}

/// The first match is a match, nothing before it is one, and there is none
/// exactly where nothing matches.
pub proof fn lemma_first_match(records: Seq<PinCodeView>, filter: PinCodeFilter)
    ensures
        match first_match(records, filter) {
            Some(i) => {
                &&& 0 <= i < records.len()
                &&& filter.admits(records[i])
                &&& forall|j: int| 0 <= j < i ==> !filter.admits(#[trigger] records[j])
            },
            None => forall|j: int| 0 <= j < records.len() ==> !filter.admits(#[trigger] records[j]),
        },
    decreases records.len(),
{
    if records.len() > 0 {
        lemma_first_match(records.drop_last(), filter);
        assert forall|j: int| 0 <= j < records.len() - 1 implies records.drop_last()[j]
            == records[j] by {}
        match first_match(records.drop_last(), filter) {
            Some(i) => {
                assert(records.drop_last()[i] == records[i]);
                assert forall|j: int| 0 <= j < i implies !filter.admits(#[trigger] records[j]) by {
                    assert(records.drop_last()[j] == records[j]);
                }
            },
            None => {
                assert forall|j: int| 0 <= j < records.len() - 1 implies !filter.admits(
                    #[trigger] records[j],
                ) by {
                    assert(records.drop_last()[j] == records[j]);
                }
            },
        }
    }
}

/// A position is the first match where it is a match and nothing before it
/// is one.
pub proof fn lemma_first_match_is(records: Seq<PinCodeView>, filter: PinCodeFilter, i: int)
    requires
        0 <= i < records.len(),
        filter.admits(records[i]),
        forall|j: int| 0 <= j < i ==> !filter.admits(#[trigger] records[j]),
    ensures
        first_match(records, filter) == Some(i),
{
    lemma_first_match(records, filter);
}

/// The store of codes: the records in the order they came in. Every record
/// in it has an identifier, and no two share one. Nothing is ever taken out.
pub struct PinCodeRepository {
    records: Vec<PinCode>,
}

impl View for PinCodeRepository {
    type V = Seq<PinCodeView>;

    closed spec fn view(&self) -> Seq<PinCodeView> {
        Seq::new(self.records@.len(), |i: int| self.records@[i]@)
    }
}

impl PinCodeRepository {
    #[verifier::type_invariant]
    spec fn identified(self) -> bool {
        distinct_ids(self@)
    }

    /// An empty store.
    pub fn new() -> (store: Self)
        ensures
            store@ == Seq::<PinCodeView>::empty(),
    {
        let store = PinCodeRepository { records: Vec::new() };
        assert(store@ =~= Seq::<PinCodeView>::empty());
        store
    }

    /// How many codes the store holds. As in every store, each has an
    /// identifier of its own.
    pub fn len(&self) -> (len: usize)
        ensures
            len == self@.len(),
            distinct_ids(self@),
    {
        proof {
            use_type_invariant(self);
        }
        self.records.len()
    }

    /// A copy of every code in the store, in the order they came in.
    pub fn all(&self) -> (codes: Vec<PinCode>)
        ensures
            codes@.len() == self@.len(),
            forall|i: int| 0 <= i < codes@.len() ==> (#[trigger] codes@[i])@ == self@[i],
    {
        let mut codes: Vec<PinCode> = Vec::new();
        let mut i: usize = 0;
        while i < self.records.len()
            invariant
                i <= self.records@.len(),
                codes@.len() == i,
                self@.len() == self.records@.len(),
                forall|j: int| 0 <= j < i ==> (#[trigger] codes@[j])@ == self@[j],
            decreases self.records@.len() - i,
        {
            codes.push(self.records[i].clone());
            i = i + 1;
        }
        codes
    }

    /// Position of the first record that `filter` lets through.
    fn position(&self, filter: &PinCodeFilter) -> (at: Option<usize>)
        ensures
            match at {
                Some(i) => first_match(self@, *filter) == Some(i as int) && i < self.records@.len(),
                None => first_match(self@, *filter) is None,
            },
    {
        let mut i: usize = 0;
        while i < self.records.len()
            invariant
                i <= self.records@.len(),
                self@.len() == self.records@.len(),
                forall|j: int| 0 <= j < i ==> !filter.admits(#[trigger] self@[j]),
            decreases self.records@.len() - i,
        {
            if filter.test(&self.records[i]) {
                proof {
                    lemma_first_match_is(self@, *filter, i as int);
                }
                return Some(i);
            }
            i = i + 1;
        }
        proof {
            lemma_first_match(self@, *filter);
        }
        None
    }

    /// The first record that `filter` lets through.
    pub fn find_one(&self, filter: &PinCodeFilter) -> (code: Option<PinCode>)
        ensures
            match code {
                Some(c) => found(self@, *filter) == Some(c@),
                None => found(self@, *filter) is None,
            },
    {
        match self.position(filter) {
            Some(i) => Some(self.records[i].clone()),
            None => None,
        }
    }

    /// Makes `update` to the first record that `filter` lets through, and
    /// says how many records the filter matched for it: one or none.
    pub fn update_one(&mut self, filter: &PinCodeFilter, update: &PinCodeUpdate) -> (matched: u64)
        ensures
            final(self)@ == updated(old(self)@, *filter, *update),
            matched == if first_match(old(self)@, *filter) is Some { 1u64 } else { 0u64 },
    {
        proof {
            use_type_invariant(&*self);
        }
        match self.position(filter) {
            Some(i) => {
                let ghost before = self@;
                let mut code = self.records[i].clone();
                update.apply(&mut code);
                let mut records: Vec<PinCode> = Vec::new();
                std::mem::swap(&mut records, &mut self.records);
                records.set(i, code);
                proof {
                    let after = Seq::new(records@.len(), |k: int| records@[k]@);
                    assert(after =~= before.update(i as int, update.applied(before[i as int])));
                    assert(distinct_ids(after)) by {
                        assert forall|k: int| 0 <= k < after.len() implies (#[trigger] after[k]).id
                            == before[k].id by {}
                    }
                }
                self.records = records;
                1
            },
            None => 0,
        }
    }

    /// The question that asks for the code whose identifier `id` spells, if
    /// `id` spells one.
    pub fn id_filter(id: &str) -> (filter: Option<PinCodeFilter>)
        ensures
            filter == match object_id_of_hex(id@) {
                Some(wanted) => Some(PinCodeFilter::Id(wanted)),
                None => None,
            },
    {
        match parse_object_id(id) {
            Some(wanted) => Some(PinCodeFilter::Id(wanted)),
            None => None,
        }
    }

    /// The question that asks for the code that the reservation spelled by
    /// `reservation_id` holds at `now`, if the text spells an identifier.
    pub fn held_by_filter(reservation_id: &str, now: Millis) -> (filter: Option<PinCodeFilter>)
        ensures
            filter == match object_id_of_hex(reservation_id@) {
                Some(reservation) => Some(PinCodeFilter::HeldBy { reservation, now }),
                None => None,
            },
    {
        match parse_object_id(reservation_id) {
            Some(reservation) => Some(PinCodeFilter::HeldBy { reservation, now }),
            None => None,
        }
    }

    /// The code whose identifier `id` spells, if `id` spells one and the
    /// store has it.
    pub fn find_by_id(&self, id: &str) -> (code: Option<PinCode>)
        ensures
            match object_id_of_hex(id@) {
                Some(wanted) => match code {
                    Some(c) => found(self@, PinCodeFilter::Id(wanted)) == Some(c@),
                    None => found(self@, PinCodeFilter::Id(wanted)) is None,
                },
                None => code is None,
            },
    {
        match Self::id_filter(id) {
            Some(filter) => self.find_one(&filter),
            None => None,
        }
    }

    /// A code that may be reserved at `now`: the first that is active, or
    /// reserved with its reservation run out.
    pub fn find_available_at(&self, now: Millis) -> (code: Option<PinCode>)
        ensures
            match code {
                Some(c) => found(self@, PinCodeFilter::Available { now }) == Some(c@),
                None => found(self@, PinCodeFilter::Available { now }) is None,
            },
    {
        self.find_one(&PinCodeFilter::Available { now })
    }

    /// A code that may be reserved at the time of the call.
    pub fn find_available(&self) -> (code: Option<PinCode>)
        ensures
            exists|now: Millis|
                match code {
                    Some(c) => #[trigger] found(self@, PinCodeFilter::Available { now }) == Some(
                        c@,
                    ),
                    None => found(self@, PinCodeFilter::Available { now }) is None,
                },
    {
        let now = current_millis();
        let code = self.find_available_at(now);
        assert(match code {
            Some(c) => found(self@, PinCodeFilter::Available { now }) == Some(c@),
            None => found(self@, PinCodeFilter::Available { now }) is None,
        });
        code
    }

    /// The code that the reservation spelled by `reservation_id` holds at
    /// `now`; none where the text spells no identifier, or the reservation
    /// has run out or been replaced.
    pub fn find_by_reservation_id_at(&self, reservation_id: &str, now: Millis) -> (code: Option<
        PinCode,
    >)
        ensures
            match object_id_of_hex(reservation_id@) {
                Some(reservation) => match code {
                    Some(c) => found(self@, PinCodeFilter::HeldBy { reservation, now }) == Some(c@),
                    None => found(self@, PinCodeFilter::HeldBy { reservation, now }) is None,
                },
                None => code is None,
            },
    {
        match Self::held_by_filter(reservation_id, now) {
            Some(filter) => self.find_one(&filter),
            None => None,
        }
    }

    /// The code that the reservation spelled by `reservation_id` holds at
    /// the time of the call.
    pub fn find_by_reservation_id(&self, reservation_id: &str) -> (code: Option<PinCode>)
        ensures
            match object_id_of_hex(reservation_id@) {
                Some(reservation) => exists|now: Millis|
                    match code {
                        Some(c) => #[trigger] found(
                            self@,
                            PinCodeFilter::HeldBy { reservation, now },
                        ) == Some(c@),
                        None => found(self@, PinCodeFilter::HeldBy { reservation, now }) is None,
                    },
                None => code is None,
            },
    {
        let now = current_millis();
        let code = self.find_by_reservation_id_at(reservation_id, now);
        proof {
            if let Some(reservation) = object_id_of_hex(reservation_id@) {
                assert(match code {
                    Some(c) => found(self@, PinCodeFilter::HeldBy { reservation, now }) == Some(c@),
                    None => found(self@, PinCodeFilter::HeldBy { reservation, now }) is None,
                });
            }
        }
        code
    }

    /// What an update by identifier comes to: the identifier where exactly
    /// one record was matched, `NotFound` otherwise.
    pub fn update_outcome(id: ObjectId, matched: u64) -> (outcome: Result<ObjectId, RepositoryError>)
        ensures
            outcome == if matched == 1 {
                Ok::<ObjectId, RepositoryError>(id)
            } else {
                Err::<ObjectId, RepositoryError>(RepositoryError::NotFound)
            },
    {
        if matched == 1 {
            Ok(id)
        } else {
            Err(RepositoryError::NotFound)
        }
    }

    /// What the store is asked to do to reserve the code whose identifier
    /// `id` spells under the reservation that `reservation_id` spells: which
    /// code to match, by its identifier alone, and what to change on it.
    pub fn reserve_request(id: &str, reservation_id: &str, now: Millis, expires_at: Millis) -> (request:
        Result<(ObjectId, PinCodeUpdate), RepositoryError>)
        ensures
            request == match (object_id_of_hex(id@), object_id_of_hex(reservation_id@)) {
                (Some(code), Some(reservation)) => Ok::<(ObjectId, PinCodeUpdate), RepositoryError>(
                    (code, PinCodeUpdate::Reserve { reservation, now, expires_at }),
                ),
                _ => Err::<(ObjectId, PinCodeUpdate), RepositoryError>(RepositoryError::InvalidId),
            },
    {
        let code = match parse_object_id(id) {
            Some(code) => code,
            None => { return Err(RepositoryError::InvalidId); },
        };
        let reservation = match parse_object_id(reservation_id) {
            Some(reservation) => reservation,
            None => { return Err(RepositoryError::InvalidId); },
        };
        Ok((code, PinCodeUpdate::Reserve { reservation, now, expires_at }))
    }

    /// What the store is asked to do to mark the code whose identifier `id`
    /// spells purchased at `now`.
    pub fn purchase_request(id: &str, now: Millis) -> (request: Result<
        (ObjectId, PinCodeUpdate),
        RepositoryError,
    >)
        ensures
            request == match object_id_of_hex(id@) {
                Some(code) => Ok::<(ObjectId, PinCodeUpdate), RepositoryError>(
                    (code, PinCodeUpdate::Purchase { now }),
                ),
                None => Err::<(ObjectId, PinCodeUpdate), RepositoryError>(
                    RepositoryError::InvalidId,
                ),
            },
    {
        match parse_object_id(id) {
            Some(code) => Ok((code, PinCodeUpdate::Purchase { now })),
            None => Err(RepositoryError::InvalidId),
        }
    }

    /// Carries out a request to change the code with the identifier `id`.
    fn change(&mut self, id: ObjectId, update: &PinCodeUpdate) -> (outcome: Result<
        ObjectId,
        RepositoryError,
    >)
        ensures
            final(self)@ == updated(old(self)@, PinCodeFilter::Id(id), *update),
            outcome == if holds_id(old(self)@, id) {
                Ok::<ObjectId, RepositoryError>(id)
            } else {
                Err::<ObjectId, RepositoryError>(RepositoryError::NotFound)
            },
    {
        let matched = self.update_one(&PinCodeFilter::Id(id), update);
        Self::update_outcome(id, matched)
    }

    /// Reserves the code whose identifier `id` spells, under the reservation
    /// that `reservation_id` spells, from `now` until `expires_at`. The code
    /// is matched by its identifier alone, whatever state it is in.
    pub fn reserve_pincode(
        &mut self,
        id: &str,
        reservation_id: &str,
        now: Millis,
        expires_at: Millis,
    ) -> (outcome: Result<ObjectId, RepositoryError>)
        ensures
            match (object_id_of_hex(id@), object_id_of_hex(reservation_id@)) {
                (Some(code), Some(reservation)) => {
                    &&& final(self)@ == updated(
                        old(self)@,
                        PinCodeFilter::Id(code),
                        PinCodeUpdate::Reserve { reservation, now, expires_at },
                    )
                    &&& outcome == if holds_id(old(self)@, code) {
                        Ok::<ObjectId, RepositoryError>(code)
                    } else {
                        Err::<ObjectId, RepositoryError>(RepositoryError::NotFound)
                    }
                },
                _ => final(self)@ == old(self)@ && outcome == Err::<ObjectId, RepositoryError>(
                    RepositoryError::InvalidId,
                ),
            },
    {
        match Self::reserve_request(id, reservation_id, now, expires_at) {
            Ok((code, update)) => self.change(code, &update),
            Err(e) => Err(e),
        }
    }

    /// Marks the code whose identifier `id` spells purchased at `now`. The
    /// code is matched by its identifier alone, whatever state it is in.
    pub fn purchase_pincode(&mut self, id: &str, now: Millis) -> (outcome: Result<
        ObjectId,
        RepositoryError,
    >)
        ensures
            match object_id_of_hex(id@) {
                Some(code) => {
                    &&& final(self)@ == updated(
                        old(self)@,
                        PinCodeFilter::Id(code),
                        PinCodeUpdate::Purchase { now },
                    )
                    &&& outcome == if holds_id(old(self)@, code) {
                        Ok::<ObjectId, RepositoryError>(code)
                    } else {
                        Err::<ObjectId, RepositoryError>(RepositoryError::NotFound)
                    }
                },
                None => final(self)@ == old(self)@ && outcome == Err::<ObjectId, RepositoryError>(
                    RepositoryError::InvalidId,
                ),
            },
    {
        match Self::purchase_request(id, now) {
            Ok((code, update)) => self.change(code, &update),
            Err(e) => Err(e),
        }
    }

    /// `records` after `code` is put in under the identifier it has or,
    /// where it has none, under `drawn`: it goes to the end, unless a
    /// record has that identifier already.
    pub open spec fn inserted(records: Seq<PinCodeView>, code: PinCodeView, drawn: ObjectId) -> Seq<
        PinCodeView,
    > {
        let id = Self::id_for(code, drawn);
        if holds_id(records, id) {
            records
        } else {
            records.push(code.identified(id))
        }
    }

    /// The identifier `code` is stored under: its own or, where it has
    /// none, `drawn`.
    pub open spec fn id_for(code: PinCodeView, drawn: ObjectId) -> ObjectId {
        match code.id {
            Some(own) => own,
            None => drawn,
        }
    }

    /// Puts `pincode` in the store under the identifier it has or, where it
    /// has none, under `drawn`. A record that would share its identifier
    /// with one in the store is refused.
    pub fn insert_with(&mut self, pincode: PinCode, drawn: ObjectId) -> (outcome: Result<
        ObjectId,
        RepositoryError,
    >)
        ensures
            final(self)@ == Self::inserted(old(self)@, pincode@, drawn),
            outcome == if holds_id(old(self)@, Self::id_for(pincode@, drawn)) {
                Err::<ObjectId, RepositoryError>(
                    RepositoryError::DuplicateId(Self::id_for(pincode@, drawn)),
                )
            } else {
                Ok::<ObjectId, RepositoryError>(Self::id_for(pincode@, drawn))
            },
    {
        proof {
            use_type_invariant(&*self);
        }
        let id = match pincode.id {
            Some(own) => own,
            None => drawn,
        };
        if self.position(&PinCodeFilter::Id(id)).is_some() {
            return Err(RepositoryError::DuplicateId(id));
        }
        let ghost before = self@;
        let mut code = pincode;
        code.id = Some(id);
        let mut records: Vec<PinCode> = Vec::new();
        std::mem::swap(&mut records, &mut self.records);
        records.push(code);
        proof {
            let after = Seq::new(records@.len(), |k: int| records@[k]@);
            assert(after =~= before.push(pincode@.identified(id)));
            lemma_first_match(before, PinCodeFilter::Id(id));
        }
        self.records = records;
        Ok(id)
    }

    /// Puts `pincode` in the store, under a newly made identifier where it
    /// has none, and gives back the identifier it is stored under.
    pub fn insert_one(&mut self, pincode: PinCode) -> (outcome: Result<ObjectId, RepositoryError>)
        ensures
            exists|drawn: ObjectId|
                {
                    &&& final(self)@ == #[trigger] Self::inserted(old(self)@, pincode@, drawn)
                    &&& outcome == if holds_id(old(self)@, Self::id_for(pincode@, drawn)) {
                        Err::<ObjectId, RepositoryError>(
                            RepositoryError::DuplicateId(Self::id_for(pincode@, drawn)),
                        )
                    } else {
                        Ok::<ObjectId, RepositoryError>(Self::id_for(pincode@, drawn))
                    }
                },
    {
        let drawn = match pincode.id {
            Some(own) => own,
            None => fresh_object_id(),
        };
        let ghost code = pincode@;
        let outcome = self.insert_with(pincode, drawn);
        assert(final(self)@ == Self::inserted(old(self)@, code, drawn));
        outcome
    }
}

/// Position of the first of `records` with the identifier `id`.
pub open spec fn first_reservation(records: Seq<PinCodeReservation>, id: ObjectId) -> Option<int>
    decreases records.len(),
{
    if records.len() == 0 {
        None
    } else {
        match first_reservation(records.drop_last(), id) {
            Some(i) => Some(i),
            None => if records.last().id == Some(id) {
                Some(records.len() - 1)
            } else {
                None
            },
        }
    }
}

/// Whether every one of `records` has an identifier and no two share one.
pub open spec fn distinct_reservations(records: Seq<PinCodeReservation>) -> bool {
    &&& forall|i: int| 0 <= i < records.len() ==> (#[trigger] records[i]).id is Some
    &&& forall|i: int, j: int|
        0 <= i < j < records.len() ==> (#[trigger] records[i]).id != (#[trigger] records[j]).id
}

/// The first record with an identifier has it, nothing before it has, and
/// there is none exactly where no record has it.
pub proof fn lemma_first_reservation(records: Seq<PinCodeReservation>, id: ObjectId)
    ensures
        match first_reservation(records, id) {
            Some(i) => {
                &&& 0 <= i < records.len()
                &&& records[i].id == Some(id)
                &&& forall|j: int| 0 <= j < i ==> (#[trigger] records[j]).id != Some(id)
            },
            None => forall|j: int| 0 <= j < records.len() ==> (#[trigger] records[j]).id != Some(id),
        },
    decreases records.len(),
{
    if records.len() > 0 {
        lemma_first_reservation(records.drop_last(), id);
        match first_reservation(records.drop_last(), id) {
            Some(i) => {
                assert(records.drop_last()[i] == records[i]);
                assert forall|j: int| 0 <= j < i implies (#[trigger] records[j]).id != Some(id) by {
                    assert(records.drop_last()[j] == records[j]);
                }
            },
            None => {
                assert forall|j: int| 0 <= j < records.len() - 1 implies (#[trigger] records[j]).id
                    != Some(id) by {
                    assert(records.drop_last()[j] == records[j]);
                }
            },
        }
    }
}

/// The log of reservations: one record for each hold ever placed, in the
/// order they were placed. A record is never changed or taken out.
pub struct PinCodeReservationRepository {
    records: Vec<PinCodeReservation>,
}

impl View for PinCodeReservationRepository {
    type V = Seq<PinCodeReservation>;

    closed spec fn view(&self) -> Seq<PinCodeReservation> {
        self.records@
    }
}

impl PinCodeReservationRepository {
    #[verifier::type_invariant]
    spec fn identified(self) -> bool {
        distinct_reservations(self@)
    }

    /// An empty log.
    pub fn new() -> (log: Self)
        ensures
            log@ == Seq::<PinCodeReservation>::empty(),
    {
        PinCodeReservationRepository { records: Vec::new() }
    }

    /// How many reservations the log holds. As in every log, each has an
    /// identifier of its own.
    pub fn len(&self) -> (len: usize)
        ensures
            len == self@.len(),
            distinct_reservations(self@),
    {
        proof {
            use_type_invariant(self);
        }
        self.records.len()
    }

    /// A copy of every reservation in the log, in the order they were
    /// placed.
    pub fn all(&self) -> (reservations: Vec<PinCodeReservation>)
        ensures
            reservations@ == self@,
    {
        self.records.clone()
    }

    /// Position of the record with the identifier `id`.
    fn position(&self, id: ObjectId) -> (at: Option<usize>)
        ensures
            match at {
                Some(i) => first_reservation(self@, id) == Some(i as int) && i < self@.len(),
                None => first_reservation(self@, id) is None,
            },
    {
        let mut i: usize = 0;
        while i < self.records.len()
            invariant
                i <= self.records@.len(),
                forall|j: int| 0 <= j < i ==> (#[trigger] self.records@[j]).id != Some(id),
            decreases self.records@.len() - i,
        {
            if self.records[i].id == Some(id) {
                proof {
                    lemma_first_reservation(self@, id);
                }
                return Some(i);
            }
            i = i + 1;
        }
        proof {
            lemma_first_reservation(self@, id);
        }
        None
    }

    /// The reservation whose identifier `id` spells. There is none to find
    /// where the log holds no record under that identifier, and none where
    /// `id` spells no identifier at all.
    pub fn find_by_id(&self, id: &str) -> (outcome: Result<PinCodeReservation, RepositoryError>)
        ensures
            outcome == match object_id_of_hex(id@) {
                Some(wanted) => match first_reservation(self@, wanted) {
                    Some(i) => Ok::<PinCodeReservation, RepositoryError>(self@[i]),
                    None => Err::<PinCodeReservation, RepositoryError>(RepositoryError::NotFound),
                },
                None => Err::<PinCodeReservation, RepositoryError>(RepositoryError::NotFound),
            },
    {
        match parse_object_id(id) {
            Some(wanted) => match self.position(wanted) {
                Some(i) => Ok(self.records[i]),
                None => Err(RepositoryError::NotFound),
            },
            None => Err(RepositoryError::NotFound),
        }
    }

    /// The identifier `reservation` is logged under: its own or, where it
    /// has none, `drawn`.
    pub open spec fn id_for(reservation: PinCodeReservation, drawn: ObjectId) -> ObjectId {
        match reservation.id {
            Some(own) => own,
            None => drawn,
        }
    }

    /// `records` after `reservation` is logged under the identifier it has
    /// or, where it has none, under `drawn`: it goes to the end, unless a
    /// record has that identifier already.
    pub open spec fn inserted(
        records: Seq<PinCodeReservation>,
        reservation: PinCodeReservation,
        drawn: ObjectId,
    ) -> Seq<PinCodeReservation> {
        let id = Self::id_for(reservation, drawn);
        if first_reservation(records, id) is Some {
            records
        } else {
            records.push(PinCodeReservation { id: Some(id), ..reservation })
        }
    }

    /// Logs `reservation` under the identifier it has or, where it has
    /// none, under `drawn`. A record that would share its identifier with
    /// one in the log is refused.
    pub fn insert_with(&mut self, reservation: PinCodeReservation, drawn: ObjectId) -> (outcome:
        Result<ObjectId, RepositoryError>)
        ensures
            final(self)@ == Self::inserted(old(self)@, reservation, drawn),
            outcome == if first_reservation(old(self)@, Self::id_for(reservation, drawn)) is Some {
                Err::<ObjectId, RepositoryError>(
                    RepositoryError::DuplicateId(Self::id_for(reservation, drawn)),
                )
            } else {
                Ok::<ObjectId, RepositoryError>(Self::id_for(reservation, drawn))
            },
    {
        proof {
            use_type_invariant(&*self);
        }
        let id = match reservation.id {
            Some(own) => own,
            None => drawn,
        };
        if self.position(id).is_some() {
            return Err(RepositoryError::DuplicateId(id));
        }
        let ghost before = self@;
        let mut records: Vec<PinCodeReservation> = Vec::new();
        std::mem::swap(&mut records, &mut self.records);
        records.push(
            PinCodeReservation {
                id: Some(id),
                pincode_id: reservation.pincode_id,
                reserved_at: reservation.reserved_at,
            },
        );
        proof {
            lemma_first_reservation(before, id);
        }
        self.records = records;
        Ok(id)
    }

    /// Logs `reservation`, under a newly made identifier where it has none,
    /// and gives back the identifier it is logged under.
    pub fn insert_one(&mut self, reservation: PinCodeReservation) -> (outcome: Result<
        ObjectId,
        RepositoryError,
    >)
        ensures
            exists|drawn: ObjectId|
                {
                    &&& final(self)@ == #[trigger] Self::inserted(old(self)@, reservation, drawn)
                    &&& outcome == if first_reservation(
                        old(self)@,
                        Self::id_for(reservation, drawn),
                    ) is Some {
                        Err::<ObjectId, RepositoryError>(
                            RepositoryError::DuplicateId(Self::id_for(reservation, drawn)),
                        )
                    } else {
                        Ok::<ObjectId, RepositoryError>(Self::id_for(reservation, drawn))
                    }
                },
    {
        let drawn = match reservation.id {
            Some(own) => own,
            None => fresh_object_id(),
        };
        let outcome = self.insert_with(reservation, drawn);
        assert(final(self)@ == Self::inserted(old(self)@, reservation, drawn));
        outcome
    }
}

} // verus!
