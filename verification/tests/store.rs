use tangomike::config::TrackConfig;
use tangomike::error::TrackFileError;
use tangomike::store::TrackStore;
use tangomike::trackfile::TrackFile;

const FLIGHT: &str = "E2B8A9FF-123B-49AB-B330-44CEAB68D465";

fn store() -> TrackStore {
    TrackStore::new(&TrackConfig { folder: "tracks".to_string() })
}

#[test]
fn flight_ids_are_checked() {
    let s = store();
    assert!(s.check_flight_id(FLIGHT).is_ok());
    assert!(s.check_flight_id("ABCDEF").is_ok());
    match s.check_flight_id("ABCDE") {
        Err(TrackFileError::InvalidFlightId(reason)) => {
            assert_eq!(reason, "ID is too short or empty")
        }
        _ => panic!("five characters are too few"),
    }
    assert!(matches!(s.check_flight_id(""), Err(TrackFileError::InvalidFlightId(_))));
    let long = "E2B8A9FF-123B-49AB-B330-44CEAB68D465X";
    assert!(matches!(s.check_flight_id(long), Err(TrackFileError::InvalidFlightId(_))));
    assert!(matches!(
        s.check_flight_id("abc\u{e9}\u{e9}\u{e9}"),
        Err(TrackFileError::InvalidFlightId(_))
    ));
}

#[test]
fn files_lie_two_levels_down() {
    let s = store();
    assert_eq!(s.target_dir(FLIGHT), "tracks/E2B/8A9");
    assert_eq!(
        s.file_path(FLIGHT).unwrap(),
        "tracks/E2B/8A9/E2B8A9FF-123B-49AB-B330-44CEAB68D465.bin"
    );
    assert_eq!(s.file_path("abcdef").unwrap(), "tracks/abc/def/abcdef.bin");
    assert!(matches!(s.file_path("abc"), Err(TrackFileError::InvalidFlightId(_))));
    let other = TrackStore::new(&TrackConfig { folder: "/var/lib/tm".to_string() });
    assert_eq!(other.target_dir("abcdefgh"), "/var/lib/tm/abc/def");
}

#[test]
fn open_or_create_makes_a_file_where_none_is() {
    let s = store();
    let tf = s.open_or_create(FLIGHT, None).unwrap();
    assert_eq!(tf.flight_id(), FLIGHT);
    assert_eq!(tf.path(), "tracks/E2B/8A9/E2B8A9FF-123B-49AB-B330-44CEAB68D465.bin");
    assert_eq!(tf.count().unwrap(), 0);
    let again = s.open_or_create(FLIGHT, Some(tf.as_bytes().to_vec())).unwrap();
    assert_eq!(again.flight_id(), FLIGHT);
    assert!(matches!(
        s.open_or_create("abc", None),
        Err(TrackFileError::InvalidFlightId(_))
    ));
}

#[test]
fn open_reports_a_missing_file() {
    let s = store();
    match s.open(FLIGHT, None) {
        Err(TrackFileError::NotFound(path)) => {
            assert_eq!(path, "tracks/E2B/8A9/E2B8A9FF-123B-49AB-B330-44CEAB68D465.bin")
        }
        _ => panic!("nothing was there to open"),
    }
    assert!(matches!(s.open("abc", None), Err(TrackFileError::InvalidFlightId(_))));
    let made = TrackFile::create_at("x", FLIGHT, 1).unwrap();
    let opened = s.open(FLIGHT, Some(made.as_bytes().to_vec())).unwrap();
    assert_eq!(opened.flight_id(), FLIGHT);
    let mut broken = made.as_bytes().to_vec();
    broken[3] = 0;
    assert!(matches!(
        s.open(FLIGHT, Some(broken)),
        Err(TrackFileError::InvalidMagicNumber)
    ));
}
