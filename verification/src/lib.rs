//! Scheduling of dog-walking appointments: validation of untrusted booking
//! requests, the cancellation transition, and the joined "upcoming bookings"
//! view over three independently stored record collections.

pub mod join;
pub mod model;
pub mod oid;
pub mod store;
pub mod time;
pub mod validate;
