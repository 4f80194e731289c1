//! The request validator: turns an untrusted request into a well-formed
//! entity or a structured failure.

use vstd::prelude::*;
use crate::model::{Booking, BookingRequest, Dog, DogRequest, Owner, OwnerRequest};
use crate::oid::{fresh_oid, is_oid_hex, oid_of_hex, parse_oid, Oid};
use crate::time::{parse_rfc3339_millis, parsed_rfc3339};

verus! {

/// Why a request was rejected.
#[derive(Clone, Copy, PartialEq, Eq, Structural, Debug)]
pub enum ValidationError {
    /// `start_time` is not a valid RFC 3339 date-and-time.
    TimeFormat,
    /// An identifier is not twenty-four hex digits.
    IdFormat,
    /// `duration_mins` is out of range (it must be positive).
    Range,
}

/// A booking request that the validator accepts: a parseable start time,
/// a well-formed owner identifier, and a positive duration.
pub open spec fn valid_booking_request(req: BookingRequest) -> bool {
    &&& parsed_rfc3339(req.start_time@) is Some
    &&& is_oid_hex(req.owner@)
    &&& req.duration_mins > 0
}

/// The booking a valid request denotes, once the fresh identifier is chosen.
pub open spec fn booking_of_request(req: BookingRequest, id: Oid) -> Booking {
    Booking {
        _id: id,
        owner: oid_of_hex(req.owner@),
        start_time: parsed_rfc3339(req.start_time@)->0,
        duration_mins: req.duration_mins,
        cancelled: false,
    }
}

/// Validates a booking request and builds the booking it denotes, under the
/// given fresh identifier. Fails on the unparseable start time first, then
/// on the malformed owner identifier, then on the out-of-range duration.
pub fn to_booking_with_id(req: &BookingRequest, id: Oid) -> (r: Result<Booking, ValidationError>)
    ensures
        r is Ok <==> valid_booking_request(*req),
        r matches Ok(b) ==> b == booking_of_request(*req, id),
        r == Result::<Booking, ValidationError>::Err(ValidationError::TimeFormat) <==> parsed_rfc3339(
            req.start_time@,
        ) is None,
        r == Result::<Booking, ValidationError>::Err(ValidationError::IdFormat) <==> parsed_rfc3339(
            req.start_time@,
        ) is Some && !is_oid_hex(req.owner@),
        r == Result::<Booking, ValidationError>::Err(ValidationError::Range) <==> parsed_rfc3339(
            req.start_time@,
        ) is Some && is_oid_hex(req.owner@) && req.duration_mins == 0,
{
    let start_time = match parse_rfc3339_millis(req.start_time.as_str()) {
        Some(t) => t,
        None => {
            return Err(ValidationError::TimeFormat);
        },
    };
    let owner = match parse_oid(req.owner.as_str()) {
        Some(o) => o,
        None => {
            return Err(ValidationError::IdFormat);
        },
    };
    if req.duration_mins == 0 {
        return Err(ValidationError::Range);
    }
    Ok(
        Booking {
            _id: id,
            owner,
            start_time,
            duration_mins: req.duration_mins,
            cancelled: false,
        },
    )
}

/// Validates a booking request and builds the booking it denotes, allocating
/// a fresh identifier. The identifier generator is outside the library's
/// reasoning, so nothing relates the new `_id` to earlier ones here; every
/// other field is pinned down.
pub fn to_booking(req: &BookingRequest) -> (r: Result<Booking, ValidationError>)
    ensures
        r is Ok <==> valid_booking_request(*req),
        r matches Ok(b) ==> b == booking_of_request(*req, b._id) && b._id.wf(),
        r matches Err(e) ==> Result::<Booking, ValidationError>::Err(e) == to_booking_error(*req),
{
    let id = fresh_oid();
    to_booking_with_id(req, id)
}

/// The failure `to_booking` reports for an invalid request; `Ok` stands for
/// "no failure" and is never the answer on an invalid one.
pub open spec fn to_booking_error(req: BookingRequest) -> Result<Booking, ValidationError> {
    if parsed_rfc3339(req.start_time@) is None {
        Err(ValidationError::TimeFormat)
    } else if !is_oid_hex(req.owner@) {
        Err(ValidationError::IdFormat)
    } else if req.duration_mins == 0 {
        Err(ValidationError::Range)
    } else {
        Ok(arbitrary())
    }
}

/// Builds an owner record from a creation request: a pass-through insert,
/// with only a fresh identifier added.
pub fn to_owner(req: OwnerRequest) -> (r: Owner)
    ensures
        r.name == req.name,
        r.email == req.email,
        r.phone == req.phone,
        r.address == req.address,
        r._id.wf(),
{
    let id = fresh_oid();
    Owner { _id: id, name: req.name, email: req.email, phone: req.phone, address: req.address }
}

/// Builds a dog record from a creation request: shape-level validation only,
/// the owner reference must be a well-formed identifier.
pub fn to_dog(req: DogRequest) -> (r: Result<Dog, ValidationError>)
    ensures
        r is Ok <==> is_oid_hex(req.owner@),
        r matches Ok(d) ==> {
            &&& d.owner == oid_of_hex(req.owner@)
            &&& d.name == req.name
            &&& d.age == req.age
            &&& d.breed == req.breed
            &&& d._id.wf()
        },
        r matches Err(e) ==> e == ValidationError::IdFormat,
{
    let owner = match parse_oid(req.owner.as_str()) {
        Some(o) => o,
        None => {
            return Err(ValidationError::IdFormat);
        },
    };
    let id = fresh_oid();
    Ok(Dog { _id: id, owner, name: req.name, age: req.age, breed: req.breed })
}

} // verus!
