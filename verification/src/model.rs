//! The entity model: Booking, Owner, Dog, the denormalized FullBooking view,
//! and the untrusted request shapes they are built from. Pure data; the
//! invariants are enforced by the validator and the store.

use vstd::prelude::*;
use crate::oid::Oid;

verus! {

/// A scheduled appointment. `start_time` is an absolute timestamp in
/// milliseconds since the Unix epoch; `owner` references an `Owner` record.
#[derive(Clone, Copy, PartialEq, Eq, Structural, Debug)]
pub struct Booking {
    pub _id: Oid,
    pub owner: Oid,
    pub start_time: i64,
    pub duration_mins: u8,
    pub cancelled: bool,
}

/// A client of the service. The attributes are opaque strings: nothing
/// beyond their presence is validated.
#[derive(PartialEq, Debug)]
pub struct Owner {
    pub _id: Oid,
    pub name: String,
    pub email: String,
    pub phone: String,
    pub address: String,
}

/// An animal belonging to exactly one `Owner`.
#[derive(PartialEq, Debug)]
pub struct Dog {
    pub _id: Oid,
    pub owner: Oid,
    pub name: String,
    pub age: u8,
    pub breed: String,
}

/// One row of the joined "upcoming bookings" view: a booking together with
/// its resolved owner and all of that owner's dogs. Never persisted.
#[derive(PartialEq, Debug)]
pub struct FullBooking {
    pub _id: Oid,
    pub owner: Owner,
    pub dogs: Vec<Dog>,
    pub start_time: i64,
    pub duration_mins: u8,
    pub cancelled: bool,
}

/// The mathematical value of a `FullBooking`: the dog list as a sequence.
pub ghost struct FullBookingView {
    pub _id: Oid,
    pub owner: Owner,
    pub dogs: Seq<Dog>,
    pub start_time: i64,
    pub duration_mins: u8,
    pub cancelled: bool,
}

impl View for FullBooking {
    type V = FullBookingView;

    open spec fn view(&self) -> FullBookingView {
        FullBookingView {
            _id: self._id,
            owner: self.owner,
            dogs: self.dogs@,
            start_time: self.start_time,
            duration_mins: self.duration_mins,
            cancelled: self.cancelled,
        }
    }
}

/// An untrusted request to create a booking, exactly as it arrives.
#[derive(PartialEq, Debug)]
pub struct BookingRequest {
    pub owner: String,
    pub start_time: String,
    pub duration_mins: u8,
}

/// An untrusted request to create an owner record.
#[derive(PartialEq, Debug)]
pub struct OwnerRequest {
    pub name: String,
    pub email: String,
    pub phone: String,
    pub address: String,
}

/// An untrusted request to create a dog record.
#[derive(PartialEq, Debug)]
pub struct DogRequest {
    pub owner: String,
    pub name: String,
    pub age: u8,
    pub breed: String,
}

impl Clone for Owner {
    fn clone(&self) -> (r: Self)
        ensures
            r == *self,
    {
        Owner {
            _id: self._id,
            name: self.name.clone(),
            email: self.email.clone(),
            phone: self.phone.clone(),
            address: self.address.clone(),
        }
    }
}

impl Clone for Dog {
    fn clone(&self) -> (r: Self)
        ensures
            r == *self,
    {
        Dog {
            _id: self._id,
            owner: self.owner,
            name: self.name.clone(),
            age: self.age,
            breed: self.breed.clone(),
        }
    }
}

} // verus!
