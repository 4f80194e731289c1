//! The end-to-end walk-through: create an owner, book an appointment far in
//! the future, see it in the joined upcoming view, cancel it, see it vanish.

use dog_walking::model::{BookingRequest, OwnerRequest};
use dog_walking::store::Store;
use dog_walking::validate::{to_booking, to_owner};

#[test]
fn booking_lifecycle_end_to_end() {
    let mut store = Store::new();

    let ana = to_owner(OwnerRequest {
        name: "Ana".to_string(),
        email: "ana@example.com".to_string(),
        phone: "555-0100".to_string(),
        address: "1 Park Lane".to_string(),
    });
    let ana_id = ana._id;
    let ana_hex = format!("{:024x}", ana_id.value);
    store.insert_owner(ana).unwrap();

    let booking = to_booking(&BookingRequest {
        owner: ana_hex,
        start_time: "2999-01-01T00:00:00Z".to_string(),
        duration_mins: 30,
    })
    .unwrap();
    assert_eq!(booking.owner, ana_id);
    let booking_hex = format!("{:024x}", booking._id.value);
    store.insert_booking(booking).unwrap();

    // now = 2024-01-01T00:00:00Z, well before the booking's start.
    let now: i64 = 1_704_067_200_000;
    let rows = store.list_upcoming_joined(now);
    assert_eq!(rows.len(), 1);
    assert_eq!(rows[0].owner.name, "Ana");
    assert_eq!(rows[0].dogs.len(), 0);
    assert_eq!(rows[0]._id, booking._id);

    let out = store.cancel_booking_by_id(&booking_hex).unwrap();
    assert!(out.matched && out.modified);
    let rows = store.list_upcoming_joined(now);
    assert_eq!(rows.len(), 0);
}
