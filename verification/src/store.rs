//! The booking store: three record collections with unique identifiers,
//! the insert and cancel operations, and the two queries.

use vstd::prelude::*;
use crate::join::{join_upcoming, upcoming_joined, views_of};
use crate::model::{Booking, Dog, FullBooking, Owner};
use crate::oid::{is_oid_hex, oid_of_hex, parse_oid, Oid};
use crate::validate::ValidationError;

verus! {

/// The failure of a write against the stored collections.
#[derive(Clone, Copy, PartialEq, Eq, Structural, Debug)]
pub enum StoreError {
    /// A record with the same identifier is already stored; identifiers
    /// form a unique index.
    DuplicateId,
}

/// The outcome of a cancellation: whether a booking with the identifier was
/// found, and whether its flag actually changed. Zero records matched is an
/// outcome, not an error.
#[derive(Clone, Copy, PartialEq, Eq, Structural, Debug)]
pub struct CancelOutcome {
    pub matched: bool,
    pub modified: bool,
}

/// Whether some stored booking carries identifier `id`.
pub open spec fn has_booking_id(s: Seq<Booking>, id: Oid) -> bool {
    exists|i: int| 0 <= i < s.len() && (#[trigger] s[i])._id == id
}

/// Whether some stored owner carries identifier `id`.
pub open spec fn has_owner_id(s: Seq<Owner>, id: Oid) -> bool {
    exists|i: int| 0 <= i < s.len() && (#[trigger] s[i])._id == id
}

/// Whether some stored dog carries identifier `id`.
pub open spec fn has_dog_id(s: Seq<Dog>, id: Oid) -> bool {
    exists|i: int| 0 <= i < s.len() && (#[trigger] s[i])._id == id
}

/// Booking `b` with its cancelled flag set; every other field kept.
pub open spec fn with_cancelled(b: Booking) -> Booking {
    Booking {
        _id: b._id,
        owner: b.owner,
        start_time: b.start_time,
        duration_mins: b.duration_mins,
        cancelled: true,
    }
}

/// What cancellation does to one stored booking: the matching booking has
/// its flag set, any other is untouched.
pub open spec fn cancel_one(b: Booking, id: Oid) -> Booking {
    if b._id == id {
        with_cancelled(b)
    } else {
        b
    }
}

/// The stored bookings after cancelling `id`.
pub open spec fn cancel_model(s: Seq<Booking>, id: Oid) -> Seq<Booking>
    decreases s.len(),
{
    if s.len() == 0 {
        Seq::empty()
    } else {
        cancel_model(s.drop_last(), id).push(cancel_one(s.last(), id))
    }
}

/// Whether cancelling `id` would change anything: a matching booking exists
/// that is not yet cancelled.
pub open spec fn cancel_would_modify(s: Seq<Booking>, id: Oid) -> bool {
    exists|i: int|
        0 <= i < s.len() && (#[trigger] s[i])._id == id && !s[i].cancelled
}

/// Identifiers are unique among the stored bookings.
pub open spec fn booking_ids_unique(s: Seq<Booking>) -> bool {
    forall|i: int, j: int|
        0 <= i < j < s.len() ==> (#[trigger] s[i])._id != (#[trigger] s[j])._id
}

/// Identifiers are unique among the stored owners.
pub open spec fn owner_ids_unique(s: Seq<Owner>) -> bool {
    forall|i: int, j: int|
        0 <= i < j < s.len() ==> (#[trigger] s[i])._id != (#[trigger] s[j])._id
}

/// Identifiers are unique among the stored dogs.
pub open spec fn dog_ids_unique(s: Seq<Dog>) -> bool {
    forall|i: int, j: int|
        0 <= i < j < s.len() ==> (#[trigger] s[i])._id != (#[trigger] s[j])._id
}

/// The mathematical value of the store: its three record collections.
pub ghost struct StoreView {
    pub bookings: Seq<Booking>,
    pub owners: Seq<Owner>,
    pub dogs: Seq<Dog>,
}

/// Three independently stored record collections. There is no foreign-key
/// enforcement between them: a booking or a dog may reference an owner that
/// was never stored, and the joined query silently drops such bookings.
pub struct Store {
    bookings: Vec<Booking>,
    owners: Vec<Owner>,
    dogs: Vec<Dog>,
}

impl View for Store {
    type V = StoreView;

    closed spec fn view(&self) -> StoreView {
        StoreView { bookings: self.bookings@, owners: self.owners@, dogs: self.dogs@ }
    }
}

impl Store {
    /// Identifiers are unique within each collection; inserts keep it so.
    pub open spec fn wf(&self) -> bool {
        &&& booking_ids_unique(self@.bookings)
        &&& owner_ids_unique(self@.owners)
        &&& dog_ids_unique(self@.dogs)
    }

    /// An empty store.
    pub fn new() -> (r: Store)
        ensures
            r@.bookings == Seq::<Booking>::empty(),
            r@.owners == Seq::<Owner>::empty(),
            r@.dogs == Seq::<Dog>::empty(),
            r.wf(),
    {
        Store { bookings: Vec::new(), owners: Vec::new(), dogs: Vec::new() }
    }

    /// Writes a new booking record. The only uniqueness check is the one the
    /// identifier index forces: a clashing identifier is a write failure.
    pub fn insert_booking(&mut self, b: Booking) -> (r: Result<Oid, StoreError>)
        requires
            old(self).wf(),
        ensures
            final(self).wf(),
            final(self)@.owners == old(self)@.owners,
            final(self)@.dogs == old(self)@.dogs,
            !has_booking_id(old(self)@.bookings, b._id) ==> r
                == Result::<Oid, StoreError>::Ok(b._id) && final(self)@.bookings == old(
                self,
            )@.bookings.push(b),
            has_booking_id(old(self)@.bookings, b._id) ==> r == Result::<Oid, StoreError>::Err(
                StoreError::DuplicateId,
            ) && final(self)@.bookings == old(self)@.bookings,
    {
        let mut i: usize = 0;
        while i < self.bookings.len()
            invariant
                0 <= i <= self@.bookings.len(),
                *self == *old(self),
                old(self).wf(),
                forall|m: int| 0 <= m < i ==> (#[trigger] self@.bookings[m])._id != b._id,
            decreases self@.bookings.len() - i,
        {
            if self.bookings[i]._id == b._id {
                return Err(StoreError::DuplicateId);
            }
            i += 1;
        }
        self.bookings.push(b);
        Ok(b._id)
    }

    /// Writes a new owner record; an unconditional insert beyond the
    /// identifier index.
    pub fn insert_owner(&mut self, o: Owner) -> (r: Result<Oid, StoreError>)
        requires
            old(self).wf(),
        ensures
            final(self).wf(),
            final(self)@.bookings == old(self)@.bookings,
            final(self)@.dogs == old(self)@.dogs,
            !has_owner_id(old(self)@.owners, o._id) ==> r == Result::<Oid, StoreError>::Ok(o._id)
                && final(self)@.owners == old(self)@.owners.push(o),
            has_owner_id(old(self)@.owners, o._id) ==> r == Result::<Oid, StoreError>::Err(
                StoreError::DuplicateId,
            ) && final(self)@.owners == old(self)@.owners,
    {
        let mut i: usize = 0;
        while i < self.owners.len()
            invariant
                0 <= i <= self@.owners.len(),
                *self == *old(self),
                old(self).wf(),
                forall|m: int| 0 <= m < i ==> (#[trigger] self@.owners[m])._id != o._id,
            decreases self@.owners.len() - i,
        {
            if self.owners[i]._id == o._id {
                return Err(StoreError::DuplicateId);
            }
            i += 1;
        }
        let id = o._id;
        self.owners.push(o);
        Ok(id)
    }

    /// Writes a new dog record; an unconditional insert beyond the
    /// identifier index. The owner reference is not checked against the
    /// stored owners.
    pub fn insert_dog(&mut self, d: Dog) -> (r: Result<Oid, StoreError>)
        requires
            old(self).wf(),
        ensures
            final(self).wf(),
            final(self)@.bookings == old(self)@.bookings,
            final(self)@.owners == old(self)@.owners,
            !has_dog_id(old(self)@.dogs, d._id) ==> r == Result::<Oid, StoreError>::Ok(d._id)
                && final(self)@.dogs == old(self)@.dogs.push(d),
            has_dog_id(old(self)@.dogs, d._id) ==> r == Result::<Oid, StoreError>::Err(
                StoreError::DuplicateId,
            ) && final(self)@.dogs == old(self)@.dogs,
    {
        let mut i: usize = 0;
        while i < self.dogs.len()
            invariant
                0 <= i <= self@.dogs.len(),
                *self == *old(self),
                old(self).wf(),
                forall|m: int| 0 <= m < i ==> (#[trigger] self@.dogs[m])._id != d._id,
            decreases self@.dogs.len() - i,
        {
            if self.dogs[i]._id == d._id {
                return Err(StoreError::DuplicateId);
            }
            i += 1;
        }
        let id = d._id;
        self.dogs.push(d);
        Ok(id)
    }

    /// Sets `cancelled` on the booking with the given identifier, atomically
    /// at the single-record level. Reports whether a record matched and
    /// whether anything changed; a missing record is an outcome, not an
    /// error, and a second cancellation matches but modifies nothing.
    pub fn cancel(&mut self, id: Oid) -> (r: CancelOutcome)
        ensures
            final(self)@.bookings == cancel_model(old(self)@.bookings, id),
            final(self)@.owners == old(self)@.owners,
            final(self)@.dogs == old(self)@.dogs,
            r.matched == has_booking_id(old(self)@.bookings, id),
            r.modified == cancel_would_modify(old(self)@.bookings, id),
            old(self).wf() ==> final(self).wf(),
    {
        let ghost orig = self@.bookings;
        let mut out: Vec<Booking> = Vec::new();
        let mut matched = false;
        let mut modified = false;
        let mut i: usize = 0;
        while i < self.bookings.len()
            invariant
                0 <= i <= self@.bookings.len(),
                *self == *old(self),
                orig == self@.bookings,
                out@ == cancel_model(orig.take(i as int), id),
                matched == has_booking_id(orig.take(i as int), id),
                modified == cancel_would_modify(orig.take(i as int), id),
            decreases self@.bookings.len() - i,
        {
            let b = self.bookings[i];
            if b._id == id {
                matched = true;
                if !b.cancelled {
                    modified = true;
                }
                out.push(
                    Booking {
                        _id: b._id,
                        owner: b.owner,
                        start_time: b.start_time,
                        duration_mins: b.duration_mins,
                        cancelled: true,
                    },
                );
            } else {
                out.push(b);
            }
            proof {
                let s = orig.take(i as int + 1);
                assert(s.drop_last() =~= orig.take(i as int));
                assert(s.last() == orig[i as int]);
                assert(out@ == cancel_model(s.drop_last(), id).push(cancel_one(s.last(), id)));
                if has_booking_id(s, id) {
                    let w = choose|w: int| 0 <= w < s.len() && s[w]._id == id;
                    if w < i {
                        assert(orig.take(i as int)[w]._id == id);
                    }
                    assert(matched);
                }
                if cancel_would_modify(s, id) {
                    let w = choose|w: int|
                        0 <= w < s.len() && s[w]._id == id && !s[w].cancelled;
                    if w < i {
                        assert(orig.take(i as int)[w]._id == id && !orig.take(i as int)[w].cancelled);
                    }
                    assert(modified);
                }
                if matched {
                    assert(has_booking_id(s, id));
                }
                if modified {
                    assert(cancel_would_modify(s, id));
                }
            }
            i += 1;
        }
        proof {
            assert(orig.take(orig.len() as int) =~= orig);
        }
        self.bookings = out;
        proof {
            lemma_cancel_model_pointwise(orig, id);
            if old(self).wf() {
                let c = cancel_model(orig, id);
                assert forall|x: int, y: int| 0 <= x < y < c.len() implies (#[trigger] c[x])._id
                    != (#[trigger] c[y])._id by {
                    assert(c[x] == cancel_one(orig[x], id));
                    assert(c[y] == cancel_one(orig[y], id));
                    assert(orig[x]._id != orig[y]._id);
                }
            }
        }
        CancelOutcome { matched, modified }
    }

    /// Parses the identifier text and cancels the matching booking; a
    /// malformed identifier is rejected without touching the store.
    pub fn cancel_booking_by_id(&mut self, booking_id: &str) -> (r: Result<
        CancelOutcome,
        ValidationError,
    >)
        ensures
            !is_oid_hex(booking_id@) ==> r == Result::<CancelOutcome, ValidationError>::Err(
                ValidationError::IdFormat,
            ) && *final(self) == *old(self),
            is_oid_hex(booking_id@) ==> ({
                let id = oid_of_hex(booking_id@);
                &&& final(self)@.bookings == cancel_model(old(self)@.bookings, id)
                &&& final(self)@.owners == old(self)@.owners
                &&& final(self)@.dogs == old(self)@.dogs
                &&& r == Result::<CancelOutcome, ValidationError>::Ok(
                    (CancelOutcome {
                        matched: has_booking_id(old(self)@.bookings, id),
                        modified: cancel_would_modify(old(self)@.bookings, id),
                    }),
                )
                &&& (old(self).wf() ==> final(self).wf())
            }),
    {
        match parse_oid(booking_id) {
            Some(id) => Ok(self.cancel(id)),
            None => Err(ValidationError::IdFormat),
        }
    }

    /// Returns every stored booking, unfiltered and in storage order.
    pub fn list_all(&self) -> (r: Vec<Booking>)
        ensures
            r@ == self@.bookings,
    {
        let mut r: Vec<Booking> = Vec::new();
        let mut i: usize = 0;
        while i < self.bookings.len()
            invariant
                0 <= i <= self@.bookings.len(),
                r@ == self@.bookings.take(i as int),
            decreases self@.bookings.len() - i,
        {
            r.push(self.bookings[i]);
            proof {
                assert(self@.bookings.take(i as int + 1) =~= self@.bookings.take(i as int).push(
                    self@.bookings[i as int],
                ));
            }
            i += 1;
        }
        proof {
            assert(self@.bookings.take(self@.bookings.len() as int) =~= self@.bookings);
        }
        r
    }

    /// Returns the joined view of the not-cancelled bookings that start at
    /// or after `now`, per the aggregation engine's semantics.
    pub fn list_upcoming_joined(&self, now: i64) -> (r: Vec<FullBooking>)
        ensures
            views_of(r@) == upcoming_joined(self@.bookings, self@.owners, self@.dogs, now),
    {
        join_upcoming(&self.bookings, &self.owners, &self.dogs, now)
    }
}

proof fn lemma_cancel_model_pointwise(s: Seq<Booking>, id: Oid)
    ensures
        cancel_model(s, id).len() == s.len(),
        forall|i: int| 0 <= i < s.len() ==> cancel_model(s, id)[i] == cancel_one(#[trigger] s[i], id),
    decreases s.len(),
{
    if s.len() > 0 {
        lemma_cancel_model_pointwise(s.drop_last(), id);
        assert forall|i: int| 0 <= i < s.len() implies cancel_model(s, id)[i] == cancel_one(
            #[trigger] s[i],
            id,
        ) by {
            if i < s.len() - 1 {
                assert(cancel_model(s, id)[i] == cancel_model(s.drop_last(), id)[i]);
                assert(s.drop_last()[i] == s[i]);
            }
        }
    }
}

/// Law (idempotent cancellation): cancelling a booking that is already
/// cancelled leaves the collection exactly as it is, still reports a match,
/// and modifies nothing — cancellation never errors and never reverses.
pub proof fn lemma_cancel_idempotent(s: Seq<Booking>, id: Oid)
    ensures
        cancel_model(cancel_model(s, id), id) == cancel_model(s, id),
        has_booking_id(cancel_model(s, id), id) == has_booking_id(s, id),
        !cancel_would_modify(cancel_model(s, id), id),
    decreases s.len(),
{
    lemma_cancel_model_pointwise(s, id);
    lemma_cancel_model_pointwise(cancel_model(s, id), id);
    let c = cancel_model(s, id);
    if s.len() > 0 {
        lemma_cancel_idempotent(s.drop_last(), id);
        assert(c.drop_last() =~= cancel_model(s.drop_last(), id));
        assert(c.last() == cancel_one(s.last(), id));
        assert(cancel_one(cancel_one(s.last(), id), id) == cancel_one(s.last(), id));
        assert(cancel_model(c, id) =~= cancel_model(c.drop_last(), id).push(
            cancel_one(c.last(), id),
        ));
        assert(cancel_model(c, id) =~= c);
    }
    if has_booking_id(s, id) {
        let w = choose|w: int| 0 <= w < s.len() && s[w]._id == id;
        assert(c[w]._id == id);
    }
    if has_booking_id(c, id) {
        let w = choose|w: int| 0 <= w < c.len() && c[w]._id == id;
        assert(c[w] == cancel_one(s[w], id));
        assert(s[w]._id == id);
    }
    assert forall|w: int| 0 <= w < c.len() && (#[trigger] c[w])._id == id implies c[w].cancelled by {
        assert(c[w] == cancel_one(s[w], id));
    }
}

/// Law (round trip): a booking just inserted stands at the end of the
/// collection a subsequent unfiltered listing returns, equal on every
/// field, and every earlier record keeps its place.
pub proof fn lemma_insert_round_trip(s: Seq<Booking>, b: Booking)
    ensures
        s.push(b)[s.len() as int] == b,
        s.push(b).contains(b),
        forall|i: int| 0 <= i < s.len() ==> s.push(b)[i] == #[trigger] s[i],
{
}

} // verus!
