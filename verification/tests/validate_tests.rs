use dog_walking::model::{BookingRequest, DogRequest, OwnerRequest};
use dog_walking::oid::{parse_oid, Oid};
use dog_walking::validate::{to_booking, to_dog, to_owner, ValidationError};

fn req(owner: &str, start_time: &str, duration_mins: u8) -> BookingRequest {
    BookingRequest {
        owner: owner.to_string(),
        start_time: start_time.to_string(),
        duration_mins,
    }
}

#[test]
fn to_booking_accepts_valid_request() {
    let b = to_booking(&req("0123456789abcdef01234567", "1970-01-01T00:00:01Z", 30)).unwrap();
    assert_eq!(b.cancelled, false);
    assert_eq!(b.duration_mins, 30);
    assert_eq!(b.start_time, 1000);
    assert_eq!(b.owner.value, 0x0123456789abcdef01234567u128);
}

#[test]
fn to_booking_parses_offset_times() {
    let b = to_booking(&req("0123456789abcdef01234567", "1970-01-01T01:00:00+01:00", 5)).unwrap();
    assert_eq!(b.start_time, 0);
}

#[test]
fn to_booking_rejects_unparseable_time() {
    let r = to_booking(&req("0123456789abcdef01234567", "tomorrow at noon", 30));
    assert_eq!(r, Err(ValidationError::TimeFormat));
    let r = to_booking(&req("0123456789abcdef01234567", "2024-13-41T00:00:00Z", 30));
    assert_eq!(r, Err(ValidationError::TimeFormat));
}

#[test]
fn to_booking_rejects_malformed_owner_id() {
    let r = to_booking(&req("not-hex", "1970-01-01T00:00:01Z", 30));
    assert_eq!(r, Err(ValidationError::IdFormat));
}

#[test]
fn to_booking_rejects_zero_duration() {
    let r = to_booking(&req("0123456789abcdef01234567", "1970-01-01T00:00:01Z", 0));
    assert_eq!(r, Err(ValidationError::Range));
}

#[test]
fn to_booking_reports_time_error_first() {
    let r = to_booking(&req("not-hex", "also not a time", 0));
    assert_eq!(r, Err(ValidationError::TimeFormat));
}

#[test]
fn to_booking_allocates_distinct_ids() {
    let a = to_booking(&req("0123456789abcdef01234567", "1970-01-01T00:00:01Z", 30)).unwrap();
    let b = to_booking(&req("0123456789abcdef01234567", "1970-01-01T00:00:01Z", 30)).unwrap();
    assert_ne!(a._id, b._id);
}

#[test]
fn parse_oid_accepts_both_cases() {
    let lower = parse_oid("00ffee0099aabbccddeeff11").unwrap();
    let upper = parse_oid("00FFEE0099AABBCCDDEEFF11").unwrap();
    assert_eq!(lower, upper);
    assert_eq!(lower.value, 0x00ffee0099aabbccddeeff11u128);
}

#[test]
fn parse_oid_rejects_bad_texts() {
    assert_eq!(parse_oid(""), None);
    assert_eq!(parse_oid("0123456789abcdef0123456"), None);
    assert_eq!(parse_oid("0123456789abcdef012345678"), None);
    assert_eq!(parse_oid("0123456789abcdef0123456g"), None);
}

#[test]
fn to_owner_carries_fields() {
    let o = to_owner(OwnerRequest {
        name: "Ana".to_string(),
        email: "ana@example.com".to_string(),
        phone: "555-0100".to_string(),
        address: "1 Park Lane".to_string(),
    });
    assert_eq!(o.name, "Ana");
    assert_eq!(o.email, "ana@example.com");
    assert_eq!(o.phone, "555-0100");
    assert_eq!(o.address, "1 Park Lane");
}

#[test]
fn to_dog_parses_owner_reference() {
    let d = to_dog(DogRequest {
        owner: "0123456789abcdef01234567".to_string(),
        name: "Rex".to_string(),
        age: 4,
        breed: "Beagle".to_string(),
    })
    .unwrap();
    assert_eq!(d.owner, Oid { value: 0x0123456789abcdef01234567u128 });
    assert_eq!(d.name, "Rex");
    assert_eq!(d.age, 4);
    assert_eq!(d.breed, "Beagle");
}

#[test]
fn to_dog_rejects_malformed_owner_reference() {
    let r = to_dog(DogRequest {
        owner: "O1".to_string(),
        name: "Rex".to_string(),
        age: 4,
        breed: "Beagle".to_string(),
    });
    assert_eq!(r, Err(ValidationError::IdFormat));
}
