use tangomike::error::TrackFileError;
use tangomike::status::{RpcStatus, StatusCode};
use tangomike::text::{decimal, same_text};

#[test]
fn messages_of_the_errors() {
    assert_eq!(
        TrackFileError::InvalidMagicNumber.to_string(),
        "Track file corrupted, invalid magic number"
    );
    assert_eq!(
        TrackFileError::InvalidFileLength(264, 263).to_string(),
        "Invalid track file length: expected 264, got 263"
    );
    assert_eq!(
        TrackFileError::InsufficientDataLength("header".to_string(), 7).to_string(),
        "Insufficient data length while parsing header: 7"
    );
    assert_eq!(
        TrackFileError::IndexError(12).to_string(),
        "Invalid index 12 while reading track file data"
    );
    assert_eq!(
        TrackFileError::NotFound("tracks/abc/def/abcdef.bin".to_string()).to_string(),
        "Track file tracks/abc/def/abcdef.bin not found"
    );
    assert_eq!(
        TrackFileError::InvalidFlightId("ID is too short or empty").to_string(),
        "FlightId is incorrect: ID is too short or empty"
    );
}

#[test]
fn message_of_an_io_error() {
    let io = std::io::Error::new(std::io::ErrorKind::PermissionDenied, "no way");
    let expected = format!("TrackFileError: {}", io);
    let err = TrackFileError::from(io);
    assert!(matches!(err, TrackFileError::IOError(_)));
    assert_eq!(err.to_string(), expected);
    assert_eq!(err.to_string(), "TrackFileError: no way");
}

#[test]
fn missing_file_is_reported_as_not_found() {
    let st = RpcStatus::from(TrackFileError::NotFound("a/b.bin".to_string()));
    assert_eq!(st.code, StatusCode::NotFound);
    assert_eq!(st.message, "a/b.bin");
}

#[test]
fn other_errors_are_reported_as_internal() {
    let st = RpcStatus::from(TrackFileError::IndexError(3));
    assert_eq!(st.code, StatusCode::Internal);
    assert_eq!(st.message, "Invalid index 3 while reading track file data");
    let st = RpcStatus::from(TrackFileError::InvalidMagicNumber);
    assert_eq!(st.code, StatusCode::Internal);
    let st = RpcStatus::from(TrackFileError::InvalidFlightId("ID is too long"));
    assert_eq!(st.code, StatusCode::Internal);
    assert_eq!(st.message, "FlightId is incorrect: ID is too long");
    let io = std::io::Error::new(std::io::ErrorKind::Other, "disk gone");
    let st = RpcStatus::from(TrackFileError::from(io));
    assert_eq!(st.code, StatusCode::Internal);
    assert_eq!(st.message, "TrackFileError: disk gone");
}

#[test]
fn statuses_by_kind() {
    assert_eq!(RpcStatus::not_found("a".to_string()).code, StatusCode::NotFound);
    assert_eq!(RpcStatus::internal("b".to_string()).code, StatusCode::Internal);
    let st = RpcStatus::invalid_argument("c".to_string());
    assert_eq!(st.code, StatusCode::InvalidArgument);
    assert_eq!(st.message, "c");
}

#[test]
fn numbers_in_decimal() {
    assert_eq!(decimal(0), "0");
    assert_eq!(decimal(7), "7");
    assert_eq!(decimal(10), "10");
    assert_eq!(decimal(1234567890), "1234567890");
    assert_eq!(decimal(usize::MAX), format!("{}", usize::MAX));
}

#[test]
fn texts_compare_by_content() {
    assert!(same_text("", ""));
    assert!(same_text("abc", "abc"));
    assert!(!same_text("abc", "abd"));
    assert!(!same_text("abc", "ab"));
    assert!(!same_text("ab", "abc"));
    assert!(same_text("\u{e9}t\u{e9}", "\u{e9}t\u{e9}"));
}
