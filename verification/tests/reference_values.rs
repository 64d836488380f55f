//! Wire-form and data-model behaviour of reference values.

use rvps::json::{from_json, to_json};
use rvps::reference_value::{HashValuePair, ReferenceValue, REFERENCE_VALUE_VERSION};
use rvps::timestamp::Timestamp;
use rvps::Error;

fn sample_value() -> ReferenceValue {
    ReferenceValue::new()
        .set_version("1.0")
        .set_name("artifact")
        .set_expired(Timestamp::new(1970, 1, 1, 0, 0, 0).unwrap())
        .add_hash_value("sha512".into(), "123".into())
}

#[test]
fn reference_value_serialize() {
    let rv = sample_value();

    assert_eq!(rv.version(), "1.0");

    let rv_json: serde_json::Value = serde_json::from_str(
        r#"{
        "expired": "1970-01-01T00:00:00Z",
        "name": "artifact",
        "version": "1.0",
        "hash-value": [{
            "alg": "sha512",
            "value": "123"
        }]
    }"#,
    )
    .unwrap();

    let serialized_rf: serde_json::Value = serde_json::from_str(&to_json(&rv)).unwrap();
    assert_eq!(serialized_rf, rv_json);
}

#[test]
fn reference_value_deserialize() {
    let rv = sample_value();

    assert_eq!(rv.version(), "1.0");
    let rv_json = r#"{
        "expired": "1970-01-01T00:00:00Z",
        "name": "artifact",
        "version": "1.0",
        "hash-value": [{
            "alg": "sha512",
            "value": "123"
        }]
    }"#;
    let deserialized_rf: ReferenceValue = from_json(&rv_json).unwrap();
    assert_eq!(deserialized_rf, rv);
}

#[test]
fn wire_form_is_exact() {
    let s = to_json(&sample_value());
    assert_eq!(
        s,
        r#"{"version":"1.0","name":"artifact","expired":"1970-01-01T00:00:00Z","hash-value":[{"alg":"sha512","value":"123"}]}"#
    );
}

#[test]
fn round_trip_plain() {
    let rv = sample_value();
    let back = from_json(&to_json(&rv)).unwrap();
    assert_eq!(back, rv);
}

#[test]
fn round_trip_escaped_characters() {
    let rv = ReferenceValue::new()
        .set_name("a\"b\\c")
        .set_expired(Timestamp::new(2024, 12, 31, 23, 59, 59).unwrap())
        .add_hash_value("sha256".into(), "xy\"z".into())
        .add_hash_value("sha512".into(), "plain".into());
    let back = from_json(&to_json(&rv)).unwrap();
    assert_eq!(back, rv);
}

#[test]
fn round_trip_empty_hash_values() {
    let rv = ReferenceValue::new().set_name("bare").set_expired(
        Timestamp::new(2000, 2, 29, 12, 0, 0).unwrap(),
    );
    assert!(rv.hash_values().is_empty());
    let back = from_json(&to_json(&rv)).unwrap();
    assert_eq!(back, rv);
}

#[test]
fn deserialize_accepts_any_field_order_and_defaults_version() {
    let rv = from_json(
        r#"{"hash-value":[],"name":"n","expired":"1999-06-07T08:09:10Z"}"#,
    )
    .unwrap();
    assert_eq!(rv.version(), REFERENCE_VALUE_VERSION);
    assert_eq!(rv.name(), "n");
    assert_eq!(*rv.expired(), Timestamp::new(1999, 6, 7, 8, 9, 10).unwrap());
}

#[test]
fn deserialize_rejects_missing_expired() {
    let r = from_json(r#"{"version":"1.0","name":"n","hash-value":[]}"#);
    assert_eq!(r.unwrap_err(), Error::SerializationFailed);
}

#[test]
fn deserialize_rejects_malformed_expired() {
    let r = from_json(r#"{"name":"n","expired":"1970-13-01T00:00:00Z","hash-value":[]}"#);
    assert_eq!(r.unwrap_err(), Error::SerializationFailed);

    let r = from_json(r#"{"name":"n","expired":"1970-02-30T00:00:00Z","hash-value":[]}"#);
    assert_eq!(r.unwrap_err(), Error::SerializationFailed);

    let r = from_json(r#"{"name":"n","expired":"not a time","hash-value":[]}"#);
    assert_eq!(r.unwrap_err(), Error::SerializationFailed);
}

#[test]
fn deserialize_rejects_garbage() {
    assert_eq!(from_json("").unwrap_err(), Error::SerializationFailed);
    assert_eq!(from_json("not json").unwrap_err(), Error::SerializationFailed);
    assert_eq!(
        from_json(r#"{"name":"n","expired":"1970-01-01T00:00:00Z","hash-value":[]} trailing"#)
            .unwrap_err(),
        Error::SerializationFailed
    );
    assert_eq!(
        from_json(r#"{"name":"n","name":"m","expired":"1970-01-01T00:00:00Z","hash-value":[]}"#)
            .unwrap_err(),
        Error::SerializationFailed
    );
}

#[test]
fn timestamp_rejects_out_of_range_fields() {
    assert!(Timestamp::new(1970, 1, 1, 0, 0, 0).is_some());
    assert!(Timestamp::new(1970, 0, 1, 0, 0, 0).is_none());
    assert!(Timestamp::new(1970, 13, 1, 0, 0, 0).is_none());
    assert!(Timestamp::new(1970, 1, 32, 0, 0, 0).is_none());
    assert!(Timestamp::new(1970, 1, 1, 24, 0, 0).is_none());
    assert!(Timestamp::new(1970, 1, 1, 0, 60, 0).is_none());
    assert!(Timestamp::new(1970, 1, 1, 0, 0, 60).is_none());
    assert!(Timestamp::new(10000, 1, 1, 0, 0, 0).is_none());
}

#[test]
fn timestamp_rejects_calendar_impossible_dates() {
    assert!(Timestamp::new(1970, 2, 28, 0, 0, 0).is_some());
    assert!(Timestamp::new(1970, 2, 29, 0, 0, 0).is_none());
    assert!(Timestamp::new(2000, 2, 29, 0, 0, 0).is_some());
    assert!(Timestamp::new(1900, 2, 29, 0, 0, 0).is_none());
    assert!(Timestamp::new(2024, 2, 29, 0, 0, 0).is_some());
    assert!(Timestamp::new(2023, 4, 31, 0, 0, 0).is_none());
    assert!(Timestamp::new(2023, 4, 30, 0, 0, 0).is_some());
}

#[test]
fn new_reference_value_has_wall_clock_expiration() {
    let rv = ReferenceValue::new();
    let t = *rv.expired();
    assert!(t.year <= 9999);
    assert!((1..=12).contains(&t.month));
    assert!((1..=31).contains(&t.day));
    assert!(t.hour <= 23);
    assert!(t.minute <= 59);
    assert!(t.second <= 59);
    assert_eq!(rv.version(), REFERENCE_VALUE_VERSION);
    assert_eq!(rv.name(), "");
    assert!(rv.hash_values().is_empty());
}

#[test]
fn hash_value_pair_accessors() {
    let p = HashValuePair::new("sha384".into(), "0xabc".into());
    assert_eq!(p.alg(), "sha384");
    assert_eq!(p.value(), "0xabc");
}

#[test]
fn builder_setters_replace_fields() {
    let rv = sample_value().set_version("2.0").set_name("other");
    assert_eq!(rv.version(), "2.0");
    assert_eq!(rv.name(), "other");
    assert_eq!(rv.hash_values().len(), 1);
    assert_eq!(rv.hash_values()[0].alg(), "sha512");
}
