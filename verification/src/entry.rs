//! The records of a track file and their stored form.
//!
//! Real-valued quantities are carried as the 64 bits of their IEEE 754 double,
//! so that a record is compared and stored bit for bit.

use crate::error::TrackFileError;
use vstd::bytes::{
    lemma_auto_spec_u64_to_from_le_bytes, spec_u64_from_le_bytes, spec_u64_to_le_bytes,
    u64_from_le_bytes, u64_to_le_bytes,
};
use vstd::prelude::*;
use vstd::slice::slice_subrange;
use vstd::string::StringExecFns;

verus! {

/// Length of a record slot in bytes: nineteen words of eight bytes.
pub const ENTRY_SIZE: usize = 152;

/// Number of eight-byte words in a record slot.
pub const ENTRY_WORDS: usize = 19;

/// A sampled state of the aircraft at one instant.
#[derive(Clone, Copy, Debug)]
pub struct TrackPoint {
    /// Time of the sample in milliseconds since the Unix epoch.
    pub ts: u64,
    /// Latitude in degrees, as the bits of a double.
    pub lat: u64,
    /// Longitude in degrees, as the bits of a double.
    pub lng: u64,
    pub hdg_true: u64,
    pub alt_amsl: u64,
    pub alt_agl: u64,
    pub gnd_height: u64,
    pub crs: u64,
    pub ias: u64,
    pub tas: u64,
    pub gs: u64,
    pub ap_master: bool,
    pub gear_pct: i64,
    pub flaps: i64,
    pub on_gnd: bool,
    pub on_rwy: bool,
    pub wind_vel: u64,
    pub wind_dir: u64,
    /// Distance flown so far in nautical miles, as the bits of a double. The
    /// store fills it in; what a client sends here is not kept.
    pub distance: u64,
}

/// A landing.
#[derive(Clone, Copy, Debug)]
pub struct TouchDown {
    /// Time of the landing in milliseconds since the Unix epoch.
    pub ts: u64,
    pub bank: u64,
    pub hdg_mag: u64,
    pub hdg_true: u64,
    pub vel_nrm: u64,
    pub pitch: u64,
    pub lat: u64,
    pub lng: u64,
}

/// A record of a track file.
#[derive(Clone, Copy, Debug)]
pub enum TrackFileEntry {
    TrackPoint(TrackPoint),
    TouchDown(TouchDown),
}

impl Default for TrackPoint {
    /// The point at time zero with every quantity zero and every flag off.
    fn default() -> (r: Self)
        ensures
            r == TrackPoint::zero(),
    {
        TrackPoint {
            ts: 0,
            lat: 0,
            lng: 0,
            hdg_true: 0,
            alt_amsl: 0,
            alt_agl: 0,
            gnd_height: 0,
            crs: 0,
            ias: 0,
            tas: 0,
            gs: 0,
            ap_master: false,
            gear_pct: 0,
            flaps: 0,
            on_gnd: false,
            on_rwy: false,
            wind_vel: 0,
            wind_dir: 0,
            distance: 0,
        }
    }
}

impl TrackPoint {
    /// The point at time zero with every quantity zero and every flag off.
    pub open spec fn zero() -> TrackPoint {
        TrackPoint {
            ts: 0,
            lat: 0,
            lng: 0,
            hdg_true: 0,
            alt_amsl: 0,
            alt_agl: 0,
            gnd_height: 0,
            crs: 0,
            ias: 0,
            tas: 0,
            gs: 0,
            ap_master: false,
            gear_pct: 0,
            flaps: 0,
            on_gnd: false,
            on_rwy: false,
            wind_vel: 0,
            wind_dir: 0,
            distance: 0,
        }
    }

    /// Two points show the same state: they agree in every field but the
    /// timestamp and the distance.
    pub open spec fn same_state(self, other: TrackPoint) -> bool {
        (TrackPoint { ts: 0, distance: 0, ..self }) == (TrackPoint { ts: 0, distance: 0, ..other })
    }
}

impl TrackFileEntry {
    /// The relation by which repeated records are recognised: both are track
    /// points and show the same state. A touchdown is like no record, not even
    /// itself.
    pub open spec fn repeats(self, other: TrackFileEntry) -> bool {
        match (self, other) {
            (TrackFileEntry::TrackPoint(l), TrackFileEntry::TrackPoint(r)) => l.same_state(r),
            _ => false,
        }
    }

    /// The timestamp of the record.
    pub open spec fn spec_ts(&self) -> u64 {
        match *self {
            TrackFileEntry::TrackPoint(tp) => tp.ts,
            TrackFileEntry::TouchDown(td) => td.ts,
        }
    }

    /// The timestamp of the record.
    #[verifier::when_used_as_spec(spec_ts)]
    pub fn ts(&self) -> (r: u64)
        ensures
            r == self.spec_ts(),
    {
        match self {
            TrackFileEntry::TrackPoint(tp) => tp.ts,
            TrackFileEntry::TouchDown(td) => td.ts,
        }
    }
}

/// A flag as a number: one when set, zero when not.
pub open spec fn flag(b: bool) -> u64 {
    if b {
        1
    } else {
        0
    }
}

/// The nineteen words of a record slot. The first word is the tag: zero for
/// a track point, one for a touchdown. A touchdown leaves the last ten words zero.
pub open spec fn words_of(e: TrackFileEntry) -> Seq<u64> {
    match e {
        TrackFileEntry::TrackPoint(p) => seq![
            0u64,
            p.ts,
            p.lat,
            p.lng,
            p.hdg_true,
            p.alt_amsl,
            p.alt_agl,
            p.gnd_height,
            p.crs,
            p.ias,
            p.tas,
            p.gs,
            flag(p.ap_master),
            p.gear_pct as u64,
            p.flaps as u64,
            (flag(p.on_gnd) + 256 * flag(p.on_rwy)) as u64,
            p.wind_vel,
            p.wind_dir,
            p.distance,
        ],
        TrackFileEntry::TouchDown(t) => seq![
            1u64,
            t.ts,
            t.bank,
            t.hdg_mag,
            t.hdg_true,
            t.vel_nrm,
            t.pitch,
            t.lat,
            t.lng,
            0u64,
            0u64,
            0u64,
            0u64,
            0u64,
            0u64,
            0u64,
            0u64,
            0u64,
            0u64,
        ],
    }
}

/// The record that nineteen words stand for. The lowest byte of the first word
/// is the tag: zero is a track point, anything else a touchdown. A flag is set
/// when its byte is not zero.
pub open spec fn entry_of(ws: Seq<u64>) -> TrackFileEntry {
    if ws[0] % 256 == 0 {
        TrackFileEntry::TrackPoint(
            TrackPoint {
                ts: ws[1],
                lat: ws[2],
                lng: ws[3],
                hdg_true: ws[4],
                alt_amsl: ws[5],
                alt_agl: ws[6],
                gnd_height: ws[7],
                crs: ws[8],
                ias: ws[9],
                tas: ws[10],
                gs: ws[11],
                ap_master: ws[12] % 256 != 0,
                gear_pct: ws[13] as i64,
                flaps: ws[14] as i64,
                on_gnd: ws[15] % 256 != 0,
                on_rwy: (ws[15] / 256) % 256 != 0,
                wind_vel: ws[16],
                wind_dir: ws[17],
                distance: ws[18],
            },
        )
    } else {
        TrackFileEntry::TouchDown(
            TouchDown {
                ts: ws[1],
                bank: ws[2],
                hdg_mag: ws[3],
                hdg_true: ws[4],
                vel_nrm: ws[5],
                pitch: ws[6],
                lat: ws[7],
                lng: ws[8],
            },
        )
    }
}

/// Words laid out one after the other, each as eight little-endian bytes.
pub open spec fn words_to_bytes(ws: Seq<u64>) -> Seq<u8> {
    Seq::new(8 * ws.len(), |k: int| spec_u64_to_le_bytes(ws[k / 8])[k % 8])
}

/// The first `n` words that `raw` holds.
pub open spec fn bytes_to_words(raw: Seq<u8>, n: nat) -> Seq<u64> {
    Seq::new(n, |i: int| spec_u64_from_le_bytes(raw.subrange(8 * i, 8 * i + 8)))
}

/// The stored form of a record: a slot of 152 bytes.
pub open spec fn encode_entry(e: TrackFileEntry) -> Seq<u8> {
    words_to_bytes(words_of(e))
}

/// The record that the first 152 bytes of `raw` hold.
pub open spec fn decode_entry(raw: Seq<u8>) -> TrackFileEntry {
    entry_of(bytes_to_words(raw, 19))
}

/// Reading back the bytes of a sequence of words gives the words.
pub proof fn lemma_words_roundtrip(ws: Seq<u64>)
    ensures
        words_to_bytes(ws).len() == 8 * ws.len(),
        bytes_to_words(words_to_bytes(ws), ws.len()) == ws,
{
    lemma_auto_spec_u64_to_from_le_bytes();
    let raw = words_to_bytes(ws);
    assert forall|i: int| 0 <= i < ws.len() implies bytes_to_words(raw, ws.len())[i] == ws[i] by {
        assert(raw.subrange(8 * i, 8 * i + 8) =~= spec_u64_to_le_bytes(ws[i]));
    }
    assert(bytes_to_words(raw, ws.len()) =~= ws);
}

/// A stored record is 152 bytes long, and decoding it gives the record back.
pub proof fn lemma_entry_roundtrip(e: TrackFileEntry)
    ensures
        encode_entry(e).len() == ENTRY_SIZE,
        decode_entry(encode_entry(e)) == e,
{
    lemma_words_roundtrip(words_of(e));
    assert forall|x: i64| #[trigger] ((x as u64) as i64) == x by {
        assert(((x as u64) as i64) == x) by (bit_vector);
    }
}

impl TrackFileEntry {
    /// The nineteen words of the record's slot.
    fn words(&self) -> (r: Vec<u64>)
        ensures
            r@ == words_of(*self),
    {
        let r = match self {
            TrackFileEntry::TrackPoint(p) => {
                let ap_master: u64 = if p.ap_master { 1 } else { 0 };
                let on_gnd: u64 = if p.on_gnd { 1 } else { 0 };
                let on_rwy: u64 = if p.on_rwy { 256 } else { 0 };
                vec![
                    0u64,
                    p.ts,
                    p.lat,
                    p.lng,
                    p.hdg_true,
                    p.alt_amsl,
                    p.alt_agl,
                    p.gnd_height,
                    p.crs,
                    p.ias,
                    p.tas,
                    p.gs,
                    ap_master,
                    #[verifier::truncate]
                    (p.gear_pct as u64),
                    #[verifier::truncate]
                    (p.flaps as u64),
                    on_gnd + on_rwy,
                    p.wind_vel,
                    p.wind_dir,
                    p.distance,
                ]
            },
            TrackFileEntry::TouchDown(t) => vec![
                1u64,
                t.ts,
                t.bank,
                t.hdg_mag,
                t.hdg_true,
                t.vel_nrm,
                t.pitch,
                t.lat,
                t.lng,
                0u64,
                0u64,
                0u64,
                0u64,
                0u64,
                0u64,
                0u64,
                0u64,
                0u64,
                0u64,
            ],
        };
        assert(r@ =~= words_of(*self));
        r
    }

    /// The stored form of the record: a slot of 152 bytes.
    pub fn to_bytes(&self) -> (r: Vec<u8>)
        ensures
            r@ == encode_entry(*self),
            r@.len() == ENTRY_SIZE,
    {
        let ws = self.words();
        let mut out: Vec<u8> = Vec::new();
        let mut i: usize = 0;
        while i < ENTRY_WORDS
            invariant
                i <= ENTRY_WORDS,
                ws@.len() == ENTRY_WORDS,
                out@ == words_to_bytes(ws@.subrange(0, i as int)),
            decreases ENTRY_WORDS - i,
        {
            let mut word = u64_to_le_bytes(ws[i]);
            let ghost before = out@;
            out.append(&mut word);
            assert(out@ =~= words_to_bytes(ws@.subrange(0, i + 1))) by {
                let next = words_to_bytes(ws@.subrange(0, i + 1));
                assert forall|k: int| 0 <= k < 8 * (i + 1) implies out@[k] == next[k] by {
                    if k < 8 * i {
                        assert(before[k] == spec_u64_to_le_bytes(ws@.subrange(0, i as int)[k / 8])[k
                            % 8]);
                    }
                }
            }
            i += 1;
        }
        assert(ws@.subrange(0, ENTRY_WORDS as int) =~= ws@);
        out
    }

    /// Reads a record from the first 152 bytes of `raw`. A shorter buffer is
    /// refused with its length.
    pub fn from_bytes(raw: &[u8]) -> (r: Result<Self, TrackFileError>)
        ensures
            raw@.len() < ENTRY_SIZE ==> (r matches Err(
                TrackFileError::InsufficientDataLength(ident, got),
            ) && ident@ == "track entry"@ && got == raw@.len()),
            raw@.len() >= ENTRY_SIZE ==> r == Ok::<Self, TrackFileError>(decode_entry(raw@)),
    {
        if raw.len() < ENTRY_SIZE {
            return Err(
                TrackFileError::InsufficientDataLength(String::from_str("track entry"), raw.len()),
            );
        }
        let mut ws: Vec<u64> = Vec::new();
        let mut i: usize = 0;
        while i < ENTRY_WORDS
            invariant
                i <= ENTRY_WORDS,
                raw@.len() >= ENTRY_SIZE,
                ws@ == bytes_to_words(raw@, i as nat),
            decreases ENTRY_WORDS - i,
        {
            let word = u64_from_le_bytes(slice_subrange(raw, 8 * i, 8 * i + 8));
            ws.push(word);
            assert(ws@ =~= bytes_to_words(raw@, (i + 1) as nat));
            i += 1;
        }
        let entry = if ws[0] % 256 == 0 {
            TrackFileEntry::TrackPoint(
                TrackPoint {
                    ts: ws[1],
                    lat: ws[2],
                    lng: ws[3],
                    hdg_true: ws[4],
                    alt_amsl: ws[5],
                    alt_agl: ws[6],
                    gnd_height: ws[7],
                    crs: ws[8],
                    ias: ws[9],
                    tas: ws[10],
                    gs: ws[11],
                    ap_master: ws[12] % 256 != 0,
                    gear_pct: #[verifier::truncate]
                    (ws[13] as i64),
                    flaps: #[verifier::truncate]
                    (ws[14] as i64),
                    on_gnd: ws[15] % 256 != 0,
                    on_rwy: (ws[15] / 256) % 256 != 0,
                    wind_vel: ws[16],
                    wind_dir: ws[17],
                    distance: ws[18],
                },
            )
        } else {
            TrackFileEntry::TouchDown(
                TouchDown {
                    ts: ws[1],
                    bank: ws[2],
                    hdg_mag: ws[3],
                    hdg_true: ws[4],
                    vel_nrm: ws[5],
                    pitch: ws[6],
                    lat: ws[7],
                    lng: ws[8],
                },
            )
        };
        Ok(entry)
    }
}

impl PartialEq for TrackFileEntry {
    /// `true` when both records are track points that show the same state.
    fn eq(&self, other: &Self) -> (r: bool) {
        match (self, other) {
            (TrackFileEntry::TrackPoint(l0), TrackFileEntry::TrackPoint(r0)) => {
                l0.lat == r0.lat && l0.lng == r0.lng && l0.hdg_true == r0.hdg_true && l0.alt_amsl
                    == r0.alt_amsl && l0.alt_agl == r0.alt_agl && l0.gnd_height == r0.gnd_height
                    && l0.crs == r0.crs && l0.ias == r0.ias && l0.tas == r0.tas && l0.gs == r0.gs
                    && l0.ap_master == r0.ap_master && l0.gear_pct == r0.gear_pct && l0.flaps
                    == r0.flaps && l0.on_gnd == r0.on_gnd && l0.on_rwy == r0.on_rwy && l0.wind_dir
                    == r0.wind_dir && l0.wind_vel == r0.wind_vel
            },
            _ => false,
        }
    }
}

impl vstd::std_specs::cmp::PartialEqSpecImpl for TrackFileEntry {
    open spec fn obeys_eq_spec() -> bool {
        true
    }

    open spec fn eq_spec(&self, other: &Self) -> bool {
        self.repeats(*other)
    }
}

} // verus!
