//! The aggregation engine: the joined "upcoming bookings" view. Bookings are
//! filtered by cancellation and start time, inner-joined with their owner (a
//! booking whose owner reference does not resolve is silently dropped), and
//! each surviving row collects all of the owner's dogs, in storage order.

use vstd::prelude::*;
use crate::model::{Booking, Dog, FullBooking, FullBookingView, Owner};
use crate::oid::Oid;

verus! {

/// A booking that the upcoming view keeps: not cancelled and not yet started.
pub open spec fn booking_upcoming(b: Booking, now: i64) -> bool {
    !b.cancelled && b.start_time >= now
}

/// The first owner record whose identifier is `id`, if any.
pub open spec fn find_owner_spec(owners: Seq<Owner>, id: Oid) -> Option<Owner>
    decreases owners.len(),
{
    if owners.len() == 0 {
        None
    } else if owners[0]._id == id {
        Some(owners[0])
    } else {
        find_owner_spec(owners.drop_first(), id)
    }
}

/// All dogs whose owner field is `id`, in storage order.
pub open spec fn dogs_of(dogs: Seq<Dog>, id: Oid) -> Seq<Dog>
    decreases dogs.len(),
{
    if dogs.len() == 0 {
        Seq::empty()
    } else if dogs.last().owner == id {
        dogs_of(dogs.drop_last(), id).push(dogs.last())
    } else {
        dogs_of(dogs.drop_last(), id)
    }
}

/// The view row a booking, its resolved owner and that owner's dogs make.
pub open spec fn full_booking_of(b: Booking, o: Owner, ds: Seq<Dog>) -> FullBookingView {
    FullBookingView {
        _id: b._id,
        owner: o,
        dogs: ds,
        start_time: b.start_time,
        duration_mins: b.duration_mins,
        cancelled: b.cancelled,
    }
}

/// What one booking contributes to the joined view: one row where it is
/// upcoming and its owner resolves, nothing otherwise.
pub open spec fn join_one(b: Booking, owners: Seq<Owner>, dogs: Seq<Dog>, now: i64) -> Seq<
    FullBookingView,
> {
    if booking_upcoming(b, now) {
        match find_owner_spec(owners, b.owner) {
            Some(o) => seq![full_booking_of(b, o, dogs_of(dogs, o._id))],
            None => Seq::empty(),
        }
    } else {
        Seq::empty()
    }
}

/// The joined upcoming view, row per surviving booking, in booking storage
/// order.
pub open spec fn upcoming_joined(
    bookings: Seq<Booking>,
    owners: Seq<Owner>,
    dogs: Seq<Dog>,
    now: i64,
) -> Seq<FullBookingView>
    decreases bookings.len(),
{
    if bookings.len() == 0 {
        Seq::empty()
    } else {
        upcoming_joined(bookings.drop_last(), owners, dogs, now) + join_one(
            bookings.last(),
            owners,
            dogs,
            now,
        )
    }
}

/// The mathematical values of a built row list.
pub open spec fn views_of(s: Seq<FullBooking>) -> Seq<FullBookingView> {
    s.map_values(|f: FullBooking| f@)
}

/// The rows of a view that carry the booking identifier `x`, in order.
pub open spec fn rows_with_id(rows: Seq<FullBookingView>, x: Oid) -> Seq<FullBookingView>
    decreases rows.len(),
{
    if rows.len() == 0 {
        Seq::empty()
    } else if rows.last()._id == x {
        rows_with_id(rows.drop_last(), x).push(rows.last())
    } else {
        rows_with_id(rows.drop_last(), x)
    }
}

proof fn lemma_rows_with_id_concat(a: Seq<FullBookingView>, b: Seq<FullBookingView>, x: Oid)
    ensures
        rows_with_id(a + b, x) == rows_with_id(a, x) + rows_with_id(b, x),
    decreases b.len(),
{
    if b.len() == 0 {
        assert(a + b =~= a);
        assert(rows_with_id(a, x) + rows_with_id(b, x) =~= rows_with_id(a, x));
    } else {
        lemma_rows_with_id_concat(a, b.drop_last(), x);
        assert((a + b).drop_last() =~= a + b.drop_last());
        assert((a + b).last() == b.last());
    }
}

/// Law: the upcoming view never shows a cancelled or already-started row.
/// Every row of the view copies its booking's flags, and only bookings that
/// are not cancelled and start at or after the cutoff survive the filter.
pub proof fn lemma_join_rows_upcoming(
    bookings: Seq<Booking>,
    owners: Seq<Owner>,
    dogs: Seq<Dog>,
    now: i64,
)
    ensures
        forall|k: int|
            0 <= k < upcoming_joined(bookings, owners, dogs, now).len() ==> {
                let row = #[trigger] upcoming_joined(bookings, owners, dogs, now)[k];
                !row.cancelled && row.start_time >= now
            },
    decreases bookings.len(),
{
    if bookings.len() > 0 {
        lemma_join_rows_upcoming(bookings.drop_last(), owners, dogs, now);
        let r = upcoming_joined(bookings, owners, dogs, now);
        let rp = upcoming_joined(bookings.drop_last(), owners, dogs, now);
        let one = join_one(bookings.last(), owners, dogs, now);
        assert forall|k: int| 0 <= k < r.len() implies {
            let row = #[trigger] r[k];
            !row.cancelled && row.start_time >= now
        } by {
            if k < rp.len() {
                assert(r[k] == rp[k]);
            } else {
                assert(r[k] == one[k - rp.len()]);
                assert(booking_upcoming(bookings.last(), now));
            }
        }
    }
}

/// Law: a booking that contributes no row of its own never shows up in the
/// view under its identifier, provided no other booking reuses it.
proof fn lemma_join_id_silent(
    bookings: Seq<Booking>,
    owners: Seq<Owner>,
    dogs: Seq<Dog>,
    now: i64,
    x: Oid,
)
    requires
        forall|j: int|
            0 <= j < bookings.len() && (#[trigger] bookings[j])._id == x ==> join_one(
                bookings[j],
                owners,
                dogs,
                now,
            ).len() == 0,
    ensures
        rows_with_id(upcoming_joined(bookings, owners, dogs, now), x) == Seq::<
            FullBookingView,
        >::empty(),
    decreases bookings.len(),
{
    if bookings.len() == 0 {
        assert(rows_with_id(upcoming_joined(bookings, owners, dogs, now), x) =~= Seq::<
            FullBookingView,
        >::empty());
    } else {
        let pre = bookings.drop_last();
        let last = bookings.last();
        lemma_join_id_silent(pre, owners, dogs, now, x);
        lemma_rows_with_id_concat(
            upcoming_joined(pre, owners, dogs, now),
            join_one(last, owners, dogs, now),
            x,
        );
        let one = join_one(last, owners, dogs, now);
        assert(rows_with_id(Seq::<FullBookingView>::empty(), x) == Seq::<
            FullBookingView,
        >::empty());
        if one.len() > 0 {
            assert(one.drop_last() =~= Seq::<FullBookingView>::empty());
            assert(one.last()._id == last._id);
            assert(last == bookings[bookings.len() - 1]);
            assert(last._id != x);
            assert(rows_with_id(one, x) == rows_with_id(one.drop_last(), x));
        }
        assert(rows_with_id(one, x) == Seq::<FullBookingView>::empty());
        assert(rows_with_id(upcoming_joined(bookings, owners, dogs, now), x) =~= Seq::<
            FullBookingView,
        >::empty());
    }
}

/// Law (join exclusion): a cancelled booking, or one whose start time lies
/// before the cutoff, appears nowhere in the upcoming view: no row carries
/// its identifier, as long as no other booking carries the same identifier.
pub proof fn lemma_join_excludes_filtered(
    bookings: Seq<Booking>,
    owners: Seq<Owner>,
    dogs: Seq<Dog>,
    now: i64,
    i: int,
)
    requires
        0 <= i < bookings.len(),
        !booking_upcoming(bookings[i], now),
        forall|j: int|
            0 <= j < bookings.len() && j != i ==> (#[trigger] bookings[j])._id != bookings[i]._id,
    ensures
        rows_with_id(upcoming_joined(bookings, owners, dogs, now), bookings[i]._id) == Seq::<
            FullBookingView,
        >::empty(),
{
    lemma_join_id_silent(bookings, owners, dogs, now, bookings[i]._id);
}

/// Law (join with dangling reference): a booking whose owner reference does
/// not resolve to any stored owner appears nowhere in the upcoming view: no
/// row carries its identifier, as long as no other booking carries the same
/// identifier. The row is dropped, not turned into an error.
pub proof fn lemma_join_excludes_dangling(
    bookings: Seq<Booking>,
    owners: Seq<Owner>,
    dogs: Seq<Dog>,
    now: i64,
    i: int,
)
    requires
        0 <= i < bookings.len(),
        find_owner_spec(owners, bookings[i].owner) is None,
        forall|j: int|
            0 <= j < bookings.len() && j != i ==> (#[trigger] bookings[j])._id != bookings[i]._id,
    ensures
        rows_with_id(upcoming_joined(bookings, owners, dogs, now), bookings[i]._id) == Seq::<
            FullBookingView,
        >::empty(),
{
    lemma_join_id_silent(bookings, owners, dogs, now, bookings[i]._id);
}

/// Law (join correctness): an upcoming booking whose owner resolves yields
/// exactly one row in the view: that row carries the booking's fields, the
/// resolved owner, and exactly the owner's dogs in storage order — as long
/// as no other booking carries the same identifier.
pub proof fn lemma_join_includes(
    bookings: Seq<Booking>,
    owners: Seq<Owner>,
    dogs: Seq<Dog>,
    now: i64,
    i: int,
)
    requires
        0 <= i < bookings.len(),
        booking_upcoming(bookings[i], now),
        find_owner_spec(owners, bookings[i].owner) is Some,
        forall|j: int|
            0 <= j < bookings.len() && j != i ==> (#[trigger] bookings[j])._id != bookings[i]._id,
    ensures
        ({
            let o = find_owner_spec(owners, bookings[i].owner)->0;
            rows_with_id(upcoming_joined(bookings, owners, dogs, now), bookings[i]._id) == seq![
                full_booking_of(bookings[i], o, dogs_of(dogs, o._id)),
            ]
        }),
    decreases bookings.len(),
{
    let x = bookings[i]._id;
    let o = find_owner_spec(owners, bookings[i].owner)->0;
    let pre = bookings.drop_last();
    let last = bookings.last();
    let one = join_one(last, owners, dogs, now);
    lemma_rows_with_id_concat(upcoming_joined(pre, owners, dogs, now), one, x);
    assert(rows_with_id(Seq::<FullBookingView>::empty(), x) == Seq::<FullBookingView>::empty());
    if i == bookings.len() - 1 {
        assert(last == bookings[i]);
        assert forall|j: int| 0 <= j < pre.len() implies (#[trigger] pre[j])._id != x by {
            assert(pre[j] == bookings[j]);
        }
        lemma_join_id_silent(pre, owners, dogs, now, x);
        assert(one == seq![full_booking_of(last, o, dogs_of(dogs, o._id))]);
        assert(one.drop_last() =~= Seq::<FullBookingView>::empty());
        assert(one.last() == full_booking_of(bookings[i], o, dogs_of(dogs, o._id)));
        assert(one.last()._id == x);
        assert(rows_with_id(one, x) == rows_with_id(one.drop_last(), x).push(one.last()));
        assert(rows_with_id(one, x) =~= seq![full_booking_of(bookings[i], o, dogs_of(dogs, o._id))]);
        assert(rows_with_id(upcoming_joined(bookings, owners, dogs, now), x) =~= seq![
            full_booking_of(bookings[i], o, dogs_of(dogs, o._id)),
        ]);
    } else {
        assert(pre[i] == bookings[i]);
        assert forall|j: int| 0 <= j < pre.len() && j != i implies (#[trigger] pre[j])._id
            != pre[i]._id by {
            assert(pre[j] == bookings[j]);
        }
        lemma_join_includes(pre, owners, dogs, now, i);
        if one.len() > 0 {
            assert(one.last()._id == last._id);
            assert(last == bookings[bookings.len() - 1]);
            assert(last._id != x);
            assert(one.drop_last() =~= Seq::<FullBookingView>::empty());
            assert(rows_with_id(one, x) == rows_with_id(one.drop_last(), x));
        }
        assert(rows_with_id(one, x) == Seq::<FullBookingView>::empty());
        assert(rows_with_id(upcoming_joined(bookings, owners, dogs, now), x) =~= seq![
            full_booking_of(bookings[i], o, dogs_of(dogs, o._id)),
        ]);
    }
}

proof fn lemma_find_owner_at(owners: Seq<Owner>, id: Oid, j: int)
    requires
        0 <= j < owners.len(),
        forall|m: int| 0 <= m < j ==> (#[trigger] owners[m])._id != id,
        owners[j]._id == id,
    ensures
        find_owner_spec(owners, id) == Some(owners[j]),
    decreases j,
{
    if j > 0 {
        lemma_find_owner_at(owners.drop_first(), id, j - 1);
    }
}

proof fn lemma_find_owner_none(owners: Seq<Owner>, id: Oid)
    requires
        forall|m: int| 0 <= m < owners.len() ==> (#[trigger] owners[m])._id != id,
    ensures
        find_owner_spec(owners, id) is None,
    decreases owners.len(),
{
    if owners.len() > 0 {
        lemma_find_owner_none(owners.drop_first(), id);
    }
}

/// Returns a copy of the first stored owner whose identifier is `id`.
pub fn find_owner(owners: &Vec<Owner>, id: Oid) -> (r: Option<Owner>)
    ensures
        r == find_owner_spec(owners@, id),
{
    let mut j: usize = 0;
    while j < owners.len()
        invariant
            0 <= j <= owners@.len(),
            forall|m: int| 0 <= m < j ==> (#[trigger] owners@[m])._id != id,
        decreases owners@.len() - j,
    {
        if owners[j]._id == id {
            let o = owners[j].clone();
            proof {
                lemma_find_owner_at(owners@, id, j as int);
            }
            return Some(o);
        }
        j += 1;
    }
    proof {
        lemma_find_owner_none(owners@, id);
    }
    None
}

/// Collects copies of all stored dogs whose owner field is `id`, in storage
/// order.
pub fn dogs_for_owner(dogs: &Vec<Dog>, id: Oid) -> (r: Vec<Dog>)
    ensures
        r@ == dogs_of(dogs@, id),
{
    let mut r: Vec<Dog> = Vec::new();
    let mut k: usize = 0;
    while k < dogs.len()
        invariant
            0 <= k <= dogs@.len(),
            r@ == dogs_of(dogs@.take(k as int), id),
        decreases dogs@.len() - k,
    {
        let ghost prev = r@;
        if dogs[k].owner == id {
            r.push(dogs[k].clone());
        }
        proof {
            let s = dogs@.take(k as int + 1);
            assert(s.drop_last() =~= dogs@.take(k as int));
            assert(s.last() == dogs@[k as int]);
            if dogs@[k as int].owner == id {
                assert(r@ == dogs_of(s.drop_last(), id).push(s.last()));
            }
        }
        k += 1;
    }
    proof {
        assert(dogs@.take(dogs@.len() as int) =~= dogs@);
    }
    r
}

/// Computes the joined upcoming view over the three stored collections.
pub fn join_upcoming(
    bookings: &Vec<Booking>,
    owners: &Vec<Owner>,
    dogs: &Vec<Dog>,
    now: i64,
) -> (r: Vec<FullBooking>)
    ensures
        views_of(r@) == upcoming_joined(bookings@, owners@, dogs@, now),
{
    let mut r: Vec<FullBooking> = Vec::new();
    let mut i: usize = 0;
    while i < bookings.len()
        invariant
            0 <= i <= bookings@.len(),
            views_of(r@) == upcoming_joined(bookings@.take(i as int), owners@, dogs@, now),
        decreases bookings@.len() - i,
    {
        let b = bookings[i];
        let ghost prev = r@;
        if !b.cancelled && b.start_time >= now {
            match find_owner(owners, b.owner) {
                Some(o) => {
                    let ghost ospec = find_owner_spec(owners@, b.owner)->0;
                    let ds = dogs_for_owner(dogs, o._id);
                    let row = FullBooking {
                        _id: b._id,
                        owner: o,
                        dogs: ds,
                        start_time: b.start_time,
                        duration_mins: b.duration_mins,
                        cancelled: b.cancelled,
                    };
                    proof {
                        assert(row@ == full_booking_of(b, ospec, dogs_of(dogs@, ospec._id)));
                    }
                    r.push(row);
                    proof {
                        assert(views_of(r@) =~= views_of(prev).push(
                            full_booking_of(b, ospec, dogs_of(dogs@, ospec._id)),
                        ));
                    }
                },
                None => {},
            }
        }
        proof {
            let bs = bookings@[i as int];
            let s = bookings@.take(i as int + 1);
            assert(s.drop_last() =~= bookings@.take(i as int));
            assert(s.last() == bs);
            let one = join_one(bs, owners@, dogs@, now);
            if booking_upcoming(bs, now) && find_owner_spec(owners@, bs.owner) is Some {
                let ospec = find_owner_spec(owners@, bs.owner)->0;
                assert(one == seq![full_booking_of(bs, ospec, dogs_of(dogs@, ospec._id))]);
                assert(views_of(r@) =~= views_of(prev) + one);
            } else {
                assert(one =~= Seq::<FullBookingView>::empty());
                assert(r@ == prev);
                assert(views_of(r@) =~= views_of(prev) + one);
            }
            assert(views_of(r@) == upcoming_joined(s, owners@, dogs@, now));
        }
        i += 1;
    }
    proof {
        assert(bookings@.take(bookings@.len() as int) =~= bookings@);
    }
    r
}

} // verus!
