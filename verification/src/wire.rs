//! The messages of the track service, as plain values, and their conversion
//! to and from the records of a track file.
//!
//! Real-valued fields are carried as the 64 bits of their IEEE 754 double.

use crate::entry::{TouchDown, TrackFileEntry, TrackPoint};
use vstd::prelude::*;
use vstd::std_specs::convert::FromSpecImpl;

verus! {

/// The state of the aircraft that a client reports: a track point without the
/// two fields that the store owns, timestamp and distance.
#[derive(Clone, Copy, Debug)]
pub struct PointData {
    pub lat: u64,
    pub lng: u64,
    pub hdg_true: u64,
    pub alt_amsl: u64,
    pub alt_agl: u64,
    pub gnd_height: u64,
    pub crs: u64,
    pub ias: u64,
    pub tas: u64,
    pub gs: u64,
    pub ap_master: bool,
    pub gear_pct: i64,
    pub flaps: i64,
    pub on_gnd: bool,
    pub on_rwy: bool,
    pub wind_vel: u64,
    pub wind_dir: u64,
}

/// A landing as a client reports it: a touchdown without its timestamp.
#[derive(Clone, Copy, Debug)]
pub struct TouchDownData {
    pub bank: u64,
    pub hdg_mag: u64,
    pub hdg_true: u64,
    pub vel_nrm: u64,
    pub pitch: u64,
    pub lat: u64,
    pub lng: u64,
}

/// What a track message carries.
#[derive(Clone, Copy, Debug)]
pub enum Union {
    Point(PointData),
    TouchDown(TouchDownData),
}

/// One message of a track: a timestamp in milliseconds and a point or a
/// touchdown. A message that carries neither is malformed.
#[derive(Clone, Copy, Debug)]
pub struct TrackMessage {
    pub ts: u64,
    pub union: Option<Union>,
}

/// A clock probe of a client.
#[derive(Clone, Copy, Debug)]
pub struct EchoRequest {
    /// The client's time in microseconds.
    pub timestamp_us: u64,
}

/// What an upload request carries.
#[derive(Clone, Copy, Debug)]
pub enum RequestUnion {
    TrackMessage(TrackMessage),
    EchoRequest(EchoRequest),
}

/// One request of an upload stream, numbered by the client.
#[derive(Clone, Copy, Debug)]
pub struct UploadTrackStreamRequest {
    pub request_id: u64,
    pub union: Option<RequestUnion>,
}

/// The answer to a clock probe.
#[derive(Clone, Copy, Debug)]
pub struct EchoResponse {
    pub client_timestamp_us: u64,
    pub server_timestamp_us: u64,
}

/// The acknowledgment of one upload request.
#[derive(Clone, Copy, Debug)]
pub struct UploadTrackStreamAck {
    pub request_id: u64,
    pub echo_response: Option<EchoResponse>,
}

/// One response of an upload stream.
#[derive(Clone, Copy, Debug)]
pub struct UploadTrackStreamResponse {
    pub ack: Option<UploadTrackStreamAck>,
}

/// A request to replay a flight and then follow it.
#[derive(Clone, Debug)]
pub struct DownloadTrackStreamRequest {
    pub flight_id: String,
    /// Only history after this time, in milliseconds, is replayed.
    pub start_at: u64,
}

/// A request for the whole track of a flight.
#[derive(Clone, Debug)]
pub struct TrackRequest {
    pub flight_id: String,
}

/// The whole track of a flight.
#[derive(Clone, Debug)]
pub struct TrackResponse {
    pub flight_id: String,
    pub departure: String,
    pub arrival: String,
    pub points: Vec<PointData>,
    pub touchdowns: Vec<TouchDownData>,
}

/// The flights that are being uploaded.
#[derive(Clone, Debug)]
pub struct ActiveFlightsResponse {
    pub flight_ids: Vec<String>,
}

impl From<TrackPoint> for PointData {
    /// The point without its timestamp and distance.
    fn from(value: TrackPoint) -> (r: Self) {
        Self {
            lat: value.lat,
            lng: value.lng,
            hdg_true: value.hdg_true,
            alt_amsl: value.alt_amsl,
            alt_agl: value.alt_agl,
            gnd_height: value.gnd_height,
            crs: value.crs,
            ias: value.ias,
            tas: value.tas,
            gs: value.gs,
            ap_master: value.ap_master,
            gear_pct: value.gear_pct,
            flaps: value.flaps,
            on_gnd: value.on_gnd,
            on_rwy: value.on_rwy,
            wind_vel: value.wind_vel,
            wind_dir: value.wind_dir,
        }
    }
}

impl FromSpecImpl<TrackPoint> for PointData {
    open spec fn obeys_from_spec() -> bool {
        true
    }

    open spec fn from_spec(value: TrackPoint) -> Self {
        PointData::of_point(value)
    }
}

impl From<TouchDown> for TouchDownData {
    /// The touchdown without its timestamp.
    fn from(value: TouchDown) -> (r: Self) {
        Self {
            bank: value.bank,
            hdg_mag: value.hdg_mag,
            hdg_true: value.hdg_true,
            vel_nrm: value.vel_nrm,
            pitch: value.pitch,
            lat: value.lat,
            lng: value.lng,
        }
    }
}

impl FromSpecImpl<TouchDown> for TouchDownData {
    open spec fn obeys_from_spec() -> bool {
        true
    }

    open spec fn from_spec(value: TouchDown) -> Self {
        TouchDownData::of_touchdown(value)
    }
}

impl PointData {
    /// The point without its timestamp and distance.
    pub open spec fn of_point(value: TrackPoint) -> PointData {
        PointData {
            lat: value.lat,
            lng: value.lng,
            hdg_true: value.hdg_true,
            alt_amsl: value.alt_amsl,
            alt_agl: value.alt_agl,
            gnd_height: value.gnd_height,
            crs: value.crs,
            ias: value.ias,
            tas: value.tas,
            gs: value.gs,
            ap_master: value.ap_master,
            gear_pct: value.gear_pct,
            flaps: value.flaps,
            on_gnd: value.on_gnd,
            on_rwy: value.on_rwy,
            wind_vel: value.wind_vel,
            wind_dir: value.wind_dir,
        }
    }

    /// The track point that this state makes at time `ts`, with no distance yet.
    pub open spec fn at(self, ts: u64) -> TrackPoint {
        TrackPoint {
            ts: ts,
            lat: self.lat,
            lng: self.lng,
            hdg_true: self.hdg_true,
            alt_amsl: self.alt_amsl,
            alt_agl: self.alt_agl,
            gnd_height: self.gnd_height,
            crs: self.crs,
            ias: self.ias,
            tas: self.tas,
            gs: self.gs,
            ap_master: self.ap_master,
            gear_pct: self.gear_pct,
            flaps: self.flaps,
            on_gnd: self.on_gnd,
            on_rwy: self.on_rwy,
            wind_vel: self.wind_vel,
            wind_dir: self.wind_dir,
            distance: 0,
        }
    }
}

impl TouchDownData {
    /// The touchdown without its timestamp.
    pub open spec fn of_touchdown(value: TouchDown) -> TouchDownData {
        TouchDownData {
            bank: value.bank,
            hdg_mag: value.hdg_mag,
            hdg_true: value.hdg_true,
            vel_nrm: value.vel_nrm,
            pitch: value.pitch,
            lat: value.lat,
            lng: value.lng,
        }
    }

    /// The touchdown that this report makes at time `ts`.
    pub open spec fn at(self, ts: u64) -> TouchDown {
        TouchDown {
            ts: ts,
            bank: self.bank,
            hdg_mag: self.hdg_mag,
            hdg_true: self.hdg_true,
            vel_nrm: self.vel_nrm,
            pitch: self.pitch,
            lat: self.lat,
            lng: self.lng,
        }
    }
}

impl From<TrackFileEntry> for TrackMessage {
    /// The message that replays a record: its timestamp and its client-owned fields.
    fn from(value: TrackFileEntry) -> (r: Self) {
        match value {
            TrackFileEntry::TrackPoint(tp) => Self {
                ts: tp.ts,
                union: Some(Union::Point(PointData::from(tp))),
            },
            TrackFileEntry::TouchDown(td) => Self {
                ts: td.ts,
                union: Some(Union::TouchDown(TouchDownData::from(td))),
            },
        }
    }
}

impl FromSpecImpl<TrackFileEntry> for TrackMessage {
    open spec fn obeys_from_spec() -> bool {
        true
    }

    open spec fn from_spec(value: TrackFileEntry) -> Self {
        TrackMessage::of_entry(value)
    }
}

impl TrackMessage {
    /// The message that replays a record: its timestamp and its client-owned fields.
    pub open spec fn of_entry(value: TrackFileEntry) -> TrackMessage {
        match value {
            TrackFileEntry::TrackPoint(tp) => TrackMessage {
                ts: tp.ts,
                union: Some(Union::Point(PointData::of_point(tp))),
            },
            TrackFileEntry::TouchDown(td) => TrackMessage {
                ts: td.ts,
                union: Some(Union::TouchDown(TouchDownData::of_touchdown(td))),
            },
        }
    }
}

impl TrackFileEntry {
    /// The record that a well-formed message asks to store.
    pub open spec fn of_message(msg: TrackMessage) -> TrackFileEntry
        recommends
            msg.union is Some,
    {
        match msg.union->0 {
            Union::Point(point) => TrackFileEntry::TrackPoint(point.at(msg.ts)),
            Union::TouchDown(td) => TrackFileEntry::TouchDown(td.at(msg.ts)),
        }
    }

    /// The record with its distance cleared. A touchdown has none and stays as it is.
    pub open spec fn without_distance(self) -> TrackFileEntry {
        match self {
            TrackFileEntry::TrackPoint(tp) => TrackFileEntry::TrackPoint(
                TrackPoint { distance: 0, ..tp },
            ),
            TrackFileEntry::TouchDown(td) => self,
        }
    }

    /// The record that a message asks to store: the message's timestamp and
    /// fields, and no distance yet. The message must carry a point or a touchdown.
    pub fn from(value: TrackMessage) -> (r: Self)
        requires
            value.union is Some,
        ensures
            r == TrackFileEntry::of_message(value),
    {
        match value.union {
            Some(Union::Point(point)) => TrackFileEntry::TrackPoint(
                TrackPoint {
                    ts: value.ts,
                    lat: point.lat,
                    lng: point.lng,
                    hdg_true: point.hdg_true,
                    alt_amsl: point.alt_amsl,
                    alt_agl: point.alt_agl,
                    gnd_height: point.gnd_height,
                    crs: point.crs,
                    ias: point.ias,
                    tas: point.tas,
                    gs: point.gs,
                    ap_master: point.ap_master,
                    gear_pct: point.gear_pct,
                    flaps: point.flaps,
                    on_gnd: point.on_gnd,
                    on_rwy: point.on_rwy,
                    wind_vel: point.wind_vel,
                    wind_dir: point.wind_dir,
                    distance: 0,
                },
            ),
            Some(Union::TouchDown(td)) => TrackFileEntry::TouchDown(
                TouchDown {
                    ts: value.ts,
                    bank: td.bank,
                    hdg_mag: td.hdg_mag,
                    hdg_true: td.hdg_true,
                    vel_nrm: td.vel_nrm,
                    pitch: td.pitch,
                    lat: td.lat,
                    lng: td.lng,
                },
            ),
            None => unreached(),
        }
    }
}

/// A record that goes out as a message and comes back is the same record but
/// for its distance, which the message does not carry.
pub proof fn law_message_roundtrip(e: TrackFileEntry)
    ensures
        TrackMessage::of_entry(e).union is Some,
        TrackFileEntry::of_message(TrackMessage::of_entry(e)) == e.without_distance(),
{
}

/// A message that comes in as a record and goes back out is the same message.
pub proof fn law_record_roundtrip(msg: TrackMessage)
    requires
        msg.union is Some,
    ensures
        TrackMessage::of_entry(TrackFileEntry::of_message(msg)) == msg,
{
}

} // verus!
