use haversine::{Location, Units};
use tangomike::entry::TrackFileEntry;
use tangomike::ingest::{ack, airport_query, apply_message, handle_request, handle_request_at,
    leg_to_measure, AirportSlot, Reply, IDLE_POLL_MS, QUEUE_CAPACITY};
use tangomike::trackfile::TrackFile;
use tangomike::wire::{EchoRequest, EchoResponse, PointData, RequestUnion, TouchDownData,
    TrackMessage, Union, UploadTrackStreamRequest};

fn unix_micros() -> u64 {
    std::time::SystemTime::now()
        .duration_since(std::time::UNIX_EPOCH)
        .unwrap()
        .as_micros() as u64
}

const FLIGHT: &str = "E2B8A9FF-123B-49AB-B330-44CEAB68D465";

fn point_at(lng: f64, lat: f64, on_gnd: bool) -> PointData {
    PointData {
        lat: lat.to_bits(),
        lng: lng.to_bits(),
        hdg_true: 0,
        alt_amsl: 0,
        alt_agl: 0,
        gnd_height: 0,
        crs: 0,
        ias: 0,
        tas: 0,
        gs: 0,
        ap_master: false,
        gear_pct: 100,
        flaps: 0,
        on_gnd,
        on_rwy: false,
        wind_vel: 0,
        wind_dir: 0,
    }
}

fn touchdown_at(lng: f64, lat: f64) -> TouchDownData {
    TouchDownData {
        bank: 0,
        hdg_mag: 0,
        hdg_true: 0,
        vel_nrm: (-150.0f64).to_bits(),
        pitch: 0,
        lat: lat.to_bits(),
        lng: lng.to_bits(),
    }
}

fn point_request(id: u64, ts: u64, pt: PointData) -> UploadTrackStreamRequest {
    UploadTrackStreamRequest {
        request_id: id,
        union: Some(RequestUnion::TrackMessage(TrackMessage {
            ts,
            union: Some(Union::Point(pt)),
        })),
    }
}

fn touchdown_request(id: u64, ts: u64, td: TouchDownData) -> UploadTrackStreamRequest {
    UploadTrackStreamRequest {
        request_id: id,
        union: Some(RequestUnion::TrackMessage(TrackMessage {
            ts,
            union: Some(Union::TouchDown(td)),
        })),
    }
}

fn acked(reply: Reply) -> (u64, Option<EchoResponse>) {
    match reply {
        Reply::Ack(resp) => {
            let a = resp.ack.unwrap();
            (a.request_id, a.echo_response)
        }
        Reply::Close => panic!("the request was in order"),
    }
}

#[test]
fn auto_departure() {
    let mut tf = TrackFile::create("track.bin", FLIGHT).unwrap();
    let req = point_request(1, 10, point_at(-0.461389, 51.4775, true));
    let msg = TrackMessage { ts: 10, union: Some(Union::Point(point_at(-0.461389, 51.4775, true))) };
    let query = airport_query(&tf, &msg).unwrap().unwrap();
    assert_eq!(query.slot, AirportSlot::Departure);
    assert_eq!(f64::from_bits(query.lng), -0.461389);
    assert_eq!(f64::from_bits(query.lat), 51.4775);
    let reply = handle_request(&mut tf, &req, Some("EGLL"), 0).unwrap();
    assert_eq!(acked(reply).0, 1);
    assert!(acked(reply).1.is_none());
    assert_eq!(tf.get_header().unwrap().get_departure(), "EGLL");
    assert_eq!(tf.get_header().unwrap().get_arrival(), "");
    assert_eq!(tf.count().unwrap(), 1);
    assert_eq!(tf.read_at(0).unwrap().ts(), 10);
}

#[test]
fn auto_arrival() {
    let mut tf = TrackFile::create("track.bin", FLIGHT).unwrap();
    let first = point_request(1, 10, point_at(-0.461389, 51.4775, true));
    handle_request(&mut tf, &first, Some("EGLL"), 0).unwrap();
    let msg = TrackMessage {
        ts: 20,
        union: Some(Union::TouchDown(touchdown_at(-0.190278, 51.148056))),
    };
    let query = airport_query(&tf, &msg).unwrap().unwrap();
    assert_eq!(query.slot, AirportSlot::Arrival);
    assert_eq!(f64::from_bits(query.lng), -0.190278);
    assert_eq!(f64::from_bits(query.lat), 51.148056);
    let req = touchdown_request(2, 20, touchdown_at(-0.190278, 51.148056));
    let reply = handle_request(&mut tf, &req, Some("EGKK"), 0).unwrap();
    assert_eq!(acked(reply).0, 2);
    assert_eq!(tf.get_header().unwrap().get_arrival(), "EGKK");
    assert_eq!(tf.get_header().unwrap().get_departure(), "EGLL");
    assert_eq!(tf.count().unwrap(), 2);
    assert!(matches!(tf.read_at(1).unwrap(), TrackFileEntry::TouchDown(_)));
}

#[test]
fn airports_are_set_once() {
    let mut tf = TrackFile::create_at("track.bin", FLIGHT, 1).unwrap();
    let on_ground = point_at(-0.461389, 51.4775, true);
    handle_request_at(&mut tf, &point_request(1, 10, on_ground), Some("EGLL"), 0, 2, 0).unwrap();
    let msg = TrackMessage { ts: 11, union: Some(Union::Point(point_at(2.55, 49.0, true))) };
    assert!(airport_query(&tf, &msg).unwrap().is_none());
    handle_request_at(&mut tf, &point_request(2, 11, point_at(2.55, 49.0, true)), Some("LFPG"), 1, 3, 0)
        .unwrap();
    assert_eq!(tf.get_departure().unwrap(), "EGLL");
    let td = touchdown_at(-0.190278, 51.148056);
    handle_request_at(&mut tf, &touchdown_request(3, 12, td), Some("EGKK"), 0, 4, 0).unwrap();
    let msg = TrackMessage { ts: 13, union: Some(Union::TouchDown(td)) };
    assert!(airport_query(&tf, &msg).unwrap().is_none());
    handle_request_at(&mut tf, &touchdown_request(4, 13, td), Some("EGLL"), 0, 5, 0).unwrap();
    assert_eq!(tf.get_arrival().unwrap(), "EGKK");
    assert_eq!(tf.get_departure().unwrap(), "EGLL");
    assert_eq!(tf.flight_id(), FLIGHT);
    assert_eq!(tf.count().unwrap(), 4);
}

#[test]
fn a_point_in_the_air_raises_no_question() {
    let mut tf = TrackFile::create_at("track.bin", FLIGHT, 1).unwrap();
    let msg = TrackMessage { ts: 10, union: Some(Union::Point(point_at(1.0, 2.0, false))) };
    assert!(airport_query(&tf, &msg).unwrap().is_none());
    let req = point_request(9, 10, point_at(1.0, 2.0, false));
    handle_request_at(&mut tf, &req, Some("EGLL"), 0, 2, 0).unwrap();
    assert_eq!(tf.get_departure().unwrap(), "");
    assert_eq!(tf.count().unwrap(), 1);
}

#[test]
fn no_airport_found_leaves_the_header_empty() {
    let mut tf = TrackFile::create_at("track.bin", FLIGHT, 1).unwrap();
    let req = point_request(1, 10, point_at(-0.461389, 51.4775, true));
    handle_request_at(&mut tf, &req, None, 0, 2, 0).unwrap();
    assert_eq!(tf.get_departure().unwrap(), "");
    assert_eq!(tf.count().unwrap(), 1);
    let msg = TrackMessage { ts: 11, union: Some(Union::Point(point_at(-0.461389, 51.4775, true))) };
    assert!(airport_query(&tf, &msg).unwrap().is_some());
}

#[test]
fn a_message_that_carries_nothing_ends_the_stream() {
    let mut tf = TrackFile::create_at("track.bin", FLIGHT, 1).unwrap();
    let before = tf.as_bytes().to_vec();
    let req = UploadTrackStreamRequest {
        request_id: 4,
        union: Some(RequestUnion::TrackMessage(TrackMessage { ts: 1, union: None })),
    };
    let reply = handle_request(&mut tf, &req, Some("EGLL"), 0).unwrap();
    assert!(matches!(reply, Reply::Close));
    assert_eq!(tf.as_bytes(), &before[..]);
    let msg = TrackMessage { ts: 1, union: None };
    assert!(airport_query(&tf, &msg).unwrap().is_none());
    assert_eq!(apply_message(&mut tf, &msg, Some("EGLL"), 0, 9).unwrap(), false);
    assert_eq!(tf.as_bytes(), &before[..]);
}

#[test]
fn a_clock_probe_is_answered_and_stores_nothing() {
    let mut tf = TrackFile::create_at("track.bin", FLIGHT, 1).unwrap();
    let before = tf.as_bytes().to_vec();
    let req = UploadTrackStreamRequest {
        request_id: 77,
        union: Some(RequestUnion::EchoRequest(EchoRequest { timestamp_us: 123456 })),
    };
    let reply = handle_request_at(&mut tf, &req, None, 0, 5, 999).unwrap();
    let (id, echo) = acked(reply);
    assert_eq!(id, 77);
    let echo = echo.unwrap();
    assert_eq!(echo.client_timestamp_us, 123456);
    assert_eq!(echo.server_timestamp_us, 999);
    assert_eq!(tf.as_bytes(), &before[..]);

    let lower = unix_micros();
    let reply = handle_request(&mut tf, &req, None, 0).unwrap();
    let upper = unix_micros();
    let (id, echo) = acked(reply);
    assert_eq!(id, 77);
    let echo = echo.unwrap();
    assert_eq!(echo.client_timestamp_us, 123456);
    assert!(lower <= echo.server_timestamp_us && echo.server_timestamp_us <= upper);
    assert_eq!(tf.as_bytes(), &before[..]);
}

#[test]
fn records_are_stored_in_the_order_received() {
    let mut tf = TrackFile::create_at("track.bin", FLIGHT, 1).unwrap();
    for i in 0..6u64 {
        let mut pt = point_at(1.0, 2.0, false);
        pt.flaps = i as i64;
        let reply =
            handle_request_at(&mut tf, &point_request(100 + i, 1000 + i, pt), None, i, 2, 0).unwrap();
        assert_eq!(acked(reply).0, 100 + i);
    }
    let all = tf.read_all().unwrap();
    assert_eq!(all.len(), 6);
    for (i, e) in all.iter().enumerate() {
        assert_eq!(e.ts(), 1000 + i as u64);
        match e {
            TrackFileEntry::TrackPoint(tp) => {
                assert_eq!(tp.flaps, i as i64);
                assert_eq!(tp.distance, i as u64);
            }
            TrackFileEntry::TouchDown(_) => panic!("points were sent"),
        }
    }
}

#[test]
fn repeated_points_collapse_in_the_stream_too() {
    let mut tf = TrackFile::create_at("track.bin", FLIGHT, 1).unwrap();
    for i in 0..5u64 {
        let req = point_request(i, 50 + i, point_at(1.0, 2.0, true));
        handle_request_at(&mut tf, &req, Some("EGLL"), 0, 10 + i, 0).unwrap();
    }
    assert_eq!(tf.count().unwrap(), 2);
    assert_eq!(tf.read_at(0).unwrap().ts(), 50);
    assert_eq!(tf.read_at(1).unwrap().ts(), 54);
    assert_eq!(tf.get_departure().unwrap(), "EGLL");
    assert_eq!(tf.mtime().unwrap(), 11);
}

#[test]
fn acknowledgment_carries_the_number_of_the_request() {
    let resp = ack(12, None);
    let a = resp.ack.unwrap();
    assert_eq!(a.request_id, 12);
    assert!(a.echo_response.is_none());
    let resp = ack(13, Some(EchoResponse { client_timestamp_us: 1, server_timestamp_us: 2 }));
    let e = resp.ack.unwrap().echo_response.unwrap();
    assert_eq!((e.client_timestamp_us, e.server_timestamp_us), (1, 2));
}

#[test]
fn the_first_point_is_measured_from_itself() {
    let tf = TrackFile::create_at("track.bin", FLIGHT, 1).unwrap();
    let msg = TrackMessage { ts: 1, union: Some(Union::Point(point_at(3.0, 4.0, false))) };
    let leg = leg_to_measure(&tf, &msg).unwrap();
    assert_eq!(f64::from_bits(leg.from_lng), 3.0);
    assert_eq!(f64::from_bits(leg.from_lat), 4.0);
    assert_eq!(f64::from_bits(leg.to_lng), 3.0);
    assert_eq!(f64::from_bits(leg.to_lat), 4.0);
    assert_eq!(leg.flown, 0);
}

#[test]
fn later_points_are_measured_from_the_last_point() {
    let mut tf = TrackFile::create_at("track.bin", FLIGHT, 1).unwrap();
    let first = point_request(1, 10, point_at(3.0, 4.0, false));
    handle_request_at(&mut tf, &first, None, 2.5f64.to_bits(), 2, 0).unwrap();
    let td = touchdown_request(2, 11, touchdown_at(9.0, 9.0));
    handle_request_at(&mut tf, &td, None, 0, 3, 0).unwrap();
    let msg = TrackMessage { ts: 12, union: Some(Union::Point(point_at(5.0, 6.0, false))) };
    let leg = leg_to_measure(&tf, &msg).unwrap();
    assert_eq!(f64::from_bits(leg.from_lng), 3.0);
    assert_eq!(f64::from_bits(leg.from_lat), 4.0);
    assert_eq!(f64::from_bits(leg.to_lng), 5.0);
    assert_eq!(f64::from_bits(leg.to_lat), 6.0);
    assert_eq!(f64::from_bits(leg.flown), 2.5);
    let landing = TrackMessage { ts: 13, union: Some(Union::TouchDown(touchdown_at(9.0, 9.0))) };
    assert!(leg_to_measure(&tf, &landing).is_none());
    assert!(leg_to_measure(&tf, &TrackMessage { ts: 14, union: None }).is_none());
}

#[test]
fn stream_limits() {
    assert_eq!(QUEUE_CAPACITY, 100);
    assert_eq!(IDLE_POLL_MS, 10);
}

fn distance_along(tf: &TrackFile, msg: &TrackMessage) -> u64 {
    match leg_to_measure(tf, msg) {
        Some(leg) => {
            let from = Location {
                latitude: f64::from_bits(leg.from_lat),
                longitude: f64::from_bits(leg.from_lng),
            };
            let to = Location {
                latitude: f64::from_bits(leg.to_lat),
                longitude: f64::from_bits(leg.to_lng),
            };
            let length = haversine::distance(from, to, Units::Kilometers) * 0.539957;
            (f64::from_bits(leg.flown) + length).to_bits()
        }
        None => 0,
    }
}

#[test]
fn uploaded_points_carry_the_distance_flown() {
    let mut tf = TrackFile::create("track.bin", FLIGHT).unwrap();
    let route = [
        (-0.4947472, 51.4668786, 0u64),
        (-0.1846378, 51.1536621, 22116),
        (-0.4947472, 51.4668786, 44232),
    ];
    for (i, (lng, lat, expected)) in route.iter().enumerate() {
        let msg = TrackMessage {
            ts: 100 + i as u64,
            union: Some(Union::Point(point_at(*lng, *lat, false))),
        };
        let distance = distance_along(&tf, &msg);
        let req = UploadTrackStreamRequest {
            request_id: i as u64,
            union: Some(RequestUnion::TrackMessage(msg)),
        };
        handle_request(&mut tf, &req, None, distance).unwrap();
        match tf.read_at(i).unwrap() {
            TrackFileEntry::TrackPoint(tp) => {
                assert_eq!((f64::from_bits(tp.distance) * 1000.0).round() as u64, *expected)
            }
            TrackFileEntry::TouchDown(_) => panic!("points were sent"),
        }
    }
}
