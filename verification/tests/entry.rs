use tangomike::entry::{TouchDown, TrackFileEntry, TrackPoint, ENTRY_SIZE};
use tangomike::error::TrackFileError;

fn sample_point() -> TrackPoint {
    TrackPoint {
        ts: 0x1111111111111111,
        lat: 51.4668786f64.to_bits(),
        lng: (-0.4947472f64).to_bits(),
        hdg_true: 3,
        alt_amsl: 4,
        alt_agl: 5,
        gnd_height: 6,
        crs: 7,
        ias: 8,
        tas: 9,
        gs: 10,
        ap_master: true,
        gear_pct: -100,
        flaps: 2,
        on_gnd: false,
        on_rwy: true,
        wind_vel: 16,
        wind_dir: 17,
        distance: 18,
    }
}

fn sample_touchdown() -> TouchDown {
    TouchDown {
        ts: 42,
        bank: 1,
        hdg_mag: 2,
        hdg_true: 3,
        vel_nrm: (-1.25f64).to_bits(),
        pitch: 5,
        lat: 6,
        lng: 7,
    }
}

fn word(raw: &[u8], i: usize) -> u64 {
    let mut b = [0u8; 8];
    b.copy_from_slice(&raw[8 * i..8 * i + 8]);
    u64::from_le_bytes(b)
}

#[test]
fn default_point_is_all_zero() {
    let tp = TrackPoint::default();
    assert_eq!(tp.ts, 0);
    assert_eq!(f64::from_bits(tp.lat), 0.0);
    assert_eq!(f64::from_bits(tp.distance), 0.0);
    assert!(!tp.ap_master && !tp.on_gnd && !tp.on_rwy);
    assert_eq!((tp.gear_pct, tp.flaps), (0, 0));
    assert_eq!(TrackFileEntry::TrackPoint(tp).to_bytes(), vec![0u8; 152]);
}

#[test]
fn track_point_slot_layout() {
    let raw = TrackFileEntry::TrackPoint(sample_point()).to_bytes();
    assert_eq!(raw.len(), ENTRY_SIZE);
    assert_eq!(raw.len(), 152);
    assert_eq!(&raw[0..8], &[0u8; 8]);
    assert_eq!(word(&raw, 1), 0x1111111111111111);
    assert_eq!(f64::from_bits(word(&raw, 2)), 51.4668786);
    assert_eq!(f64::from_bits(word(&raw, 3)), -0.4947472);
    for i in 4..12 {
        assert_eq!(word(&raw, i), i as u64 - 1);
    }
    assert_eq!(&raw[96..104], &[1, 0, 0, 0, 0, 0, 0, 0]);
    assert_eq!(word(&raw, 13) as i64, -100);
    assert_eq!(&raw[104..112], &(-100i64).to_le_bytes());
    assert_eq!(word(&raw, 14), 2);
    assert_eq!(&raw[120..128], &[0, 1, 0, 0, 0, 0, 0, 0]);
    assert_eq!(word(&raw, 16), 16);
    assert_eq!(word(&raw, 17), 17);
    assert_eq!(word(&raw, 18), 18);
}

#[test]
fn touchdown_slot_layout() {
    let raw = TrackFileEntry::TouchDown(sample_touchdown()).to_bytes();
    assert_eq!(raw.len(), 152);
    assert_eq!(&raw[0..8], &[1, 0, 0, 0, 0, 0, 0, 0]);
    assert_eq!(word(&raw, 1), 42);
    assert_eq!(word(&raw, 2), 1);
    assert_eq!(word(&raw, 3), 2);
    assert_eq!(word(&raw, 4), 3);
    assert_eq!(f64::from_bits(word(&raw, 5)), -1.25);
    assert_eq!(word(&raw, 6), 5);
    assert_eq!(word(&raw, 7), 6);
    assert_eq!(word(&raw, 8), 7);
    assert_eq!(&raw[72..152], &[0u8; 80]);
}

#[test]
fn stored_records_read_back() {
    let p = TrackFileEntry::TrackPoint(sample_point());
    match TrackFileEntry::from_bytes(&p.to_bytes()).unwrap() {
        TrackFileEntry::TrackPoint(tp) => {
            let s = sample_point();
            assert_eq!(tp.ts, s.ts);
            assert_eq!(tp.lat, s.lat);
            assert_eq!(tp.lng, s.lng);
            assert_eq!(tp.gs, s.gs);
            assert_eq!(tp.ap_master, s.ap_master);
            assert_eq!(tp.gear_pct, -100);
            assert_eq!(tp.flaps, 2);
            assert_eq!(tp.on_gnd, false);
            assert_eq!(tp.on_rwy, true);
            assert_eq!(tp.wind_vel, 16);
            assert_eq!(tp.wind_dir, 17);
            assert_eq!(tp.distance, 18);
            assert_eq!(TrackFileEntry::TrackPoint(tp).to_bytes(), p.to_bytes());
        }
        TrackFileEntry::TouchDown(_) => panic!("a track point was stored"),
    }
    let t = TrackFileEntry::TouchDown(sample_touchdown());
    let mut raw = t.to_bytes();
    raw.push(77);
    match TrackFileEntry::from_bytes(&raw).unwrap() {
        TrackFileEntry::TouchDown(td) => {
            assert_eq!(td.ts, 42);
            assert_eq!(f64::from_bits(td.vel_nrm), -1.25);
            assert_eq!((td.bank, td.hdg_mag, td.hdg_true, td.pitch, td.lat, td.lng), (1, 2, 3, 5, 6, 7));
        }
        TrackFileEntry::TrackPoint(_) => panic!("a touchdown was stored"),
    }
}

#[test]
fn flags_are_set_by_any_nonzero_byte_and_the_tag_by_its_byte() {
    let mut raw = vec![0u8; 152];
    raw[1] = 9;
    raw[96] = 2;
    raw[97] = 1;
    raw[120] = 0;
    raw[121] = 0x80;
    match TrackFileEntry::from_bytes(&raw).unwrap() {
        TrackFileEntry::TrackPoint(tp) => {
            assert!(tp.ap_master);
            assert!(!tp.on_gnd);
            assert!(tp.on_rwy);
        }
        TrackFileEntry::TouchDown(_) => panic!("the tag byte is zero"),
    }
    raw[0] = 5;
    assert!(matches!(
        TrackFileEntry::from_bytes(&raw).unwrap(),
        TrackFileEntry::TouchDown(_)
    ));
}

#[test]
fn short_slot_is_refused() {
    match TrackFileEntry::from_bytes(&[0u8; 151]) {
        Err(TrackFileError::InsufficientDataLength(ident, got)) => {
            assert_eq!(ident, "track entry");
            assert_eq!(got, 151);
        }
        _ => panic!("151 bytes are no slot"),
    }
}

#[test]
fn like_points_differ_in_time_and_distance_only() {
    let a = sample_point();
    let mut b = a;
    b.ts = 1;
    b.distance = 2;
    assert!(TrackFileEntry::TrackPoint(a) == TrackFileEntry::TrackPoint(b));
    assert!(TrackFileEntry::TrackPoint(a) == TrackFileEntry::TrackPoint(a));
    let changes: [fn(&mut TrackPoint); 17] = [
        |p| p.lat ^= 1,
        |p| p.lng ^= 1,
        |p| p.hdg_true ^= 1,
        |p| p.alt_amsl ^= 1,
        |p| p.alt_agl ^= 1,
        |p| p.gnd_height ^= 1,
        |p| p.crs ^= 1,
        |p| p.ias ^= 1,
        |p| p.tas ^= 1,
        |p| p.gs ^= 1,
        |p| p.ap_master = !p.ap_master,
        |p| p.gear_pct += 1,
        |p| p.flaps += 1,
        |p| p.on_gnd = !p.on_gnd,
        |p| p.on_rwy = !p.on_rwy,
        |p| p.wind_vel ^= 1,
        |p| p.wind_dir ^= 1,
    ];
    for change in changes {
        let mut c = a;
        change(&mut c);
        assert!(TrackFileEntry::TrackPoint(a) != TrackFileEntry::TrackPoint(c));
    }
}

#[test]
fn comparison_is_bit_for_bit() {
    let mut a = sample_point();
    let mut b = a;
    a.crs = 0.0f64.to_bits();
    b.crs = (-0.0f64).to_bits();
    assert!(TrackFileEntry::TrackPoint(a) != TrackFileEntry::TrackPoint(b));
    a.crs = f64::NAN.to_bits();
    b.crs = f64::NAN.to_bits();
    assert!(TrackFileEntry::TrackPoint(a) == TrackFileEntry::TrackPoint(b));
}

#[test]
fn touchdowns_are_like_nothing() {
    let t = TrackFileEntry::TouchDown(sample_touchdown());
    let p = TrackFileEntry::TrackPoint(sample_point());
    assert!(t != t);
    assert!(t != p);
    assert!(p != t);
}

#[test]
fn timestamp_and_distance_of_a_record() {
    let p = TrackFileEntry::TrackPoint(sample_point());
    let t = TrackFileEntry::TouchDown(sample_touchdown());
    assert_eq!(p.ts(), 0x1111111111111111);
    assert_eq!(t.ts(), 42);
    match p.with_distance(5) {
        TrackFileEntry::TrackPoint(tp) => {
            assert_eq!(tp.distance, 5);
            assert_eq!(tp.ts, 0x1111111111111111);
        }
        TrackFileEntry::TouchDown(_) => panic!("a track point stays one"),
    }
    assert_eq!(t.with_distance(5).to_bytes(), t.to_bytes());
}
