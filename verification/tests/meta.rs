use tangomike::meta::{extract_key, FlightMeta};
use tangomike::status::StatusCode;
use tonic::metadata::{AsciiMetadataValue, MetadataMap};

fn value(text: &str) -> AsciiMetadataValue {
    AsciiMetadataValue::try_from(text).unwrap()
}

fn required() -> MetadataMap {
    let mut meta = MetadataMap::new();
    meta.insert("x-flight-id", value("E2B8A9FF-123B-49AB-B330-44CEAB68D465"));
    meta.insert("x-atc-id", value("BAW123"));
    meta.insert("x-auth-token", value("SECRET-REDACTED"));
    meta
}

#[test]
fn required_headers_are_read() {
    let m = FlightMeta::try_from(&required()).unwrap();
    assert_eq!(m.flight_id, "E2B8A9FF-123B-49AB-B330-44CEAB68D465");
    assert_eq!(m.atc_id, "BAW123");
    assert_eq!(m.auth_token, "SECRET-REDACTED");
    assert_eq!(m.atc_type, None);
    assert_eq!(m.atc_flight_number, None);
    assert_eq!(m.aircraft_title, None);
}

#[test]
fn optional_headers_are_taken_where_present() {
    let mut meta = required();
    meta.insert("x-atc-type", value("A320"));
    meta.insert("x-atc-flight-number", value("123"));
    meta.insert("x-title", value("Airbus A320 Neo"));
    let m = FlightMeta::try_from(&meta).unwrap();
    assert_eq!(m.atc_type.as_deref(), Some("A320"));
    assert_eq!(m.atc_flight_number.as_deref(), Some("123"));
    assert_eq!(m.aircraft_title.as_deref(), Some("Airbus A320 Neo"));
    assert_eq!(m.atc_id, "BAW123");
}

#[test]
fn a_missing_required_header_is_an_invalid_argument() {
    for (key, message) in [
        ("x-flight-id", "x-flight-id header is missing"),
        ("x-atc-id", "x-atc-id header is missing"),
        ("x-auth-token", "x-auth-token header is missing"),
    ] {
        let mut meta = required();
        meta.remove(key);
        match FlightMeta::try_from(&meta) {
            Err(status) => {
                assert_eq!(status.code, StatusCode::InvalidArgument);
                assert_eq!(status.message, message);
            }
            Ok(_) => panic!("a required header is missing"),
        }
    }
}

#[test]
fn the_first_missing_header_is_named() {
    let meta = MetadataMap::new();
    let status = FlightMeta::try_from(&meta).unwrap_err();
    assert_eq!(status.message, "x-flight-id header is missing");
    let mut meta = MetadataMap::new();
    meta.insert("x-flight-id", value("abcdef"));
    let status = FlightMeta::try_from(&meta).unwrap_err();
    assert_eq!(status.message, "x-atc-id header is missing");
}

#[test]
fn a_header_that_is_not_text_is_an_invalid_argument() {
    let mut meta = required();
    meta.insert("x-atc-id", AsciiMetadataValue::try_from(&[0xfau8, 0x80][..]).unwrap());
    match FlightMeta::try_from(&meta) {
        Err(status) => {
            assert_eq!(status.code, StatusCode::InvalidArgument);
            assert_eq!(status.message, "invalid x-atc-id header");
        }
        Ok(_) => panic!("the header is not text"),
    }
}

#[test]
fn an_optional_header_that_is_not_text_is_left_out() {
    let mut meta = required();
    meta.insert("x-title", AsciiMetadataValue::try_from(&[0xfau8][..]).unwrap());
    let m = FlightMeta::try_from(&meta).unwrap();
    assert_eq!(m.aircraft_title, None);
}

#[test]
fn the_first_value_of_a_key_counts() {
    let mut meta = required();
    meta.append("x-atc-id", value("SECOND"));
    assert_eq!(extract_key(&meta, "x-atc-id").unwrap(), "BAW123");
    assert_eq!(extract_key(&meta, "X-Atc-Id").unwrap(), "BAW123");
    let status = extract_key(&meta, "x-none").unwrap_err();
    assert_eq!(status.code, StatusCode::InvalidArgument);
    assert_eq!(status.message, "x-none header is missing");
}
