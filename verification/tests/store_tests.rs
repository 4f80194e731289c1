use dog_walking::model::{Booking, Dog, Owner};
use dog_walking::oid::Oid;
use dog_walking::store::{CancelOutcome, Store, StoreError};
use dog_walking::validate::ValidationError;

fn oid(value: u128) -> Oid {
    Oid { value }
}

fn booking(id: u128, owner: u128, start_time: i64, cancelled: bool) -> Booking {
    Booking {
        _id: oid(id),
        owner: oid(owner),
        start_time,
        duration_mins: 30,
        cancelled,
    }
}

fn owner(id: u128, name: &str) -> Owner {
    Owner {
        _id: oid(id),
        name: name.to_string(),
        email: format!("{}@example.com", name),
        phone: "555-0100".to_string(),
        address: "1 Park Lane".to_string(),
    }
}

fn dog(id: u128, owner: u128, name: &str) -> Dog {
    Dog {
        _id: oid(id),
        owner: oid(owner),
        name: name.to_string(),
        age: 3,
        breed: "Beagle".to_string(),
    }
}

#[test]
fn insert_then_list_all_round_trips() {
    let mut store = Store::new();
    let b = booking(1, 7, 5_000, false);
    assert_eq!(store.insert_booking(b), Ok(oid(1)));
    let listed = store.list_all();
    assert_eq!(listed, vec![b]);
}

#[test]
fn insert_rejects_duplicate_id() {
    let mut store = Store::new();
    assert_eq!(store.insert_booking(booking(1, 7, 5_000, false)), Ok(oid(1)));
    assert_eq!(
        store.insert_booking(booking(1, 8, 9_000, false)),
        Err(StoreError::DuplicateId)
    );
    assert_eq!(store.list_all().len(), 1);
}

#[test]
fn cancel_sets_flag_and_is_idempotent() {
    let mut store = Store::new();
    store.insert_booking(booking(1, 7, 5_000, false)).unwrap();
    let first = store.cancel(oid(1));
    assert_eq!(first, CancelOutcome { matched: true, modified: true });
    assert_eq!(store.list_all()[0].cancelled, true);
    let second = store.cancel(oid(1));
    assert_eq!(second, CancelOutcome { matched: true, modified: false });
    assert_eq!(store.list_all()[0].cancelled, true);
    assert_eq!(store.list_all()[0].duration_mins, 30);
}

#[test]
fn cancel_reports_missing_booking() {
    let mut store = Store::new();
    store.insert_booking(booking(1, 7, 5_000, false)).unwrap();
    let out = store.cancel(oid(2));
    assert_eq!(out, CancelOutcome { matched: false, modified: false });
    assert_eq!(store.list_all()[0].cancelled, false);
}

#[test]
fn cancel_by_id_parses_the_identifier() {
    let mut store = Store::new();
    store
        .insert_booking(booking(0x0123456789abcdef01234567, 7, 5_000, false))
        .unwrap();
    let out = store.cancel_booking_by_id("0123456789ABCDEF01234567");
    assert_eq!(out, Ok(CancelOutcome { matched: true, modified: true }));
    assert_eq!(
        store.cancel_booking_by_id("not an identifier"),
        Err(ValidationError::IdFormat)
    );
}

#[test]
fn join_returns_owner_and_all_dogs() {
    let mut store = Store::new();
    store.insert_owner(owner(10, "Ana")).unwrap();
    store.insert_dog(dog(21, 10, "Rex")).unwrap();
    store.insert_dog(dog(22, 10, "Lassie")).unwrap();
    store.insert_dog(dog(23, 99, "Stray")).unwrap();
    store.insert_booking(booking(1, 10, 5_000, false)).unwrap();
    let rows = store.list_upcoming_joined(4_000);
    assert_eq!(rows.len(), 1);
    let row = &rows[0];
    assert_eq!(row._id, oid(1));
    assert_eq!(row.owner, owner(10, "Ana"));
    assert_eq!(row.start_time, 5_000);
    assert_eq!(row.duration_mins, 30);
    assert_eq!(row.cancelled, false);
    assert_eq!(row.dogs, vec![dog(21, 10, "Rex"), dog(22, 10, "Lassie")]);
}

#[test]
fn join_keeps_owner_with_no_dogs() {
    let mut store = Store::new();
    store.insert_owner(owner(10, "Ana")).unwrap();
    store.insert_booking(booking(1, 10, 5_000, false)).unwrap();
    let rows = store.list_upcoming_joined(4_000);
    assert_eq!(rows.len(), 1);
    assert_eq!(rows[0].dogs, Vec::<Dog>::new());
}

#[test]
fn join_excludes_cancelled_and_past_bookings() {
    let mut store = Store::new();
    store.insert_owner(owner(10, "Ana")).unwrap();
    store.insert_booking(booking(1, 10, 5_000, true)).unwrap();
    store.insert_booking(booking(2, 10, 3_000, false)).unwrap();
    store.insert_booking(booking(3, 10, 4_000, false)).unwrap();
    let rows = store.list_upcoming_joined(4_000);
    assert_eq!(rows.len(), 1);
    assert_eq!(rows[0]._id, oid(3));
}

#[test]
fn join_drops_booking_with_dangling_owner() {
    let mut store = Store::new();
    store.insert_owner(owner(10, "Ana")).unwrap();
    store.insert_booking(booking(1, 11, 5_000, false)).unwrap();
    let rows = store.list_upcoming_joined(4_000);
    assert_eq!(rows.len(), 0);
}

#[test]
fn join_after_cancel_drops_the_booking() {
    let mut store = Store::new();
    store.insert_owner(owner(10, "Ana")).unwrap();
    store.insert_booking(booking(1, 10, 5_000, false)).unwrap();
    assert_eq!(store.list_upcoming_joined(4_000).len(), 1);
    store.cancel(oid(1));
    assert_eq!(store.list_upcoming_joined(4_000).len(), 0);
}
