use tangomike::apiconnect::{authorization, ApiConnect};
use tangomike::config::{Config, LogConfig, LogLevel, ServiceConfig, TrackConfig};
use tangomike::replay::{capped, pause_before, Sender, TrackFileReader, MAX_PAUSE_MS};
use tangomike::wire::{RequestUnion, TrackMessage};

#[test]
fn default_settings() {
    assert_eq!(TrackConfig::default().folder, "tracks");
    assert_eq!(LogConfig::default().level, LogLevel::Debug);
    assert_eq!(ServiceConfig::default().bind, "127.0.0.1:9100");
    let cfg = Config::default();
    assert_eq!(cfg.track.folder, "tracks");
    assert_eq!(cfg.log.level, LogLevel::Debug);
    assert_eq!(cfg.service.bind, "127.0.0.1:9100");
}

#[test]
fn registry_addresses() {
    let api = ApiConnect::new("https://tmf.example");
    assert_eq!(
        api.check_url("E2B8A9FF-123B-49AB-B330-44CEAB68D465"),
        "https://tmf.example/api/v1/flights/E2B8A9FF-123B-49AB-B330-44CEAB68D465/check"
    );
    assert_eq!(authorization("abc"), "Token abc");
}

#[test]
fn sender_addresses() {
    let s = Sender::new("tmf.example".to_string(), 9200, "abc".to_string());
    assert_eq!(s.flights_url(), "https://tmf.example/api/v1/flights/");
    assert_eq!(s.endpoint(), "http://tmf.example:9200");
    assert_eq!(s.auth_header(), "Token abc");
    let zero = Sender::new("h".to_string(), 0, String::new());
    assert_eq!(zero.endpoint(), "http://h:0");
    assert_eq!(zero.auth_header(), "Token ");
    let top = Sender::new("h".to_string(), 65535, String::new());
    assert_eq!(top.endpoint(), "http://h:65535");
}

#[test]
fn requests_are_numbered() {
    let msg = TrackMessage { ts: 5, union: None };
    let req = Sender::request(3, msg);
    assert_eq!(req.request_id, 3);
    match req.union {
        Some(RequestUnion::TrackMessage(m)) => assert_eq!(m.ts, 5),
        _ => panic!("a track message was wrapped"),
    }
}

#[test]
fn replay_waits_for_records_that_are_ahead() {
    assert_eq!(pause_before(1500, 2000, 1000), Some(500));
    assert_eq!(pause_before(1000, 2000, 1000), None);
    assert_eq!(pause_before(900, 2000, 1000), None);
    assert_eq!(pause_before(1, 2000, 2000), Some(1));
    assert_eq!(pause_before(0, 2000, 2000), None);
    assert_eq!(capped(500), 500);
    assert_eq!(capped(10000), 10000);
    assert_eq!(capped(10001), 10000);
    assert_eq!(MAX_PAUSE_MS, 10000);
}

#[test]
fn reader_keeps_its_path() {
    assert_eq!(TrackFileReader::new("a/b.bin").path(), "a/b.bin");
}
