//! The engine behind an upload stream: what each request does to the track
//! file of the flight, and what is answered.
//!
//! Two things are asked of the caller before a track message is applied. The
//! airport index answers the question that `airport_query` raises, and the
//! distance flown up to a point is measured along the stretch that
//! `leg_to_measure` names.

use crate::clock::{now_micros, now_millis};
use crate::entry::{TrackFileEntry, TrackPoint, ENTRY_SIZE};
use crate::error::TrackFileError;
use crate::fixedstr::{kept, text_of};
use crate::header::HeaderView;
use crate::image::image_header;
use crate::trackfile::{collapses, counted_up, image_after, stored, with_header, TrackFile};
use crate::wire::{
    EchoResponse, RequestUnion, TrackMessage, Union, UploadTrackStreamAck,
    UploadTrackStreamRequest, UploadTrackStreamResponse,
};
use vstd::prelude::*;
use vstd::string::StringSliceAdditionalSpecFns;

verus! {

/// Number of requests that wait between the wire and the engine at most.
pub const QUEUE_CAPACITY: usize = 100;

/// Milliseconds to wait for the next request while none is waiting.
pub const IDLE_POLL_MS: u64 = 10;

/// The airport field of the header that a message may fill.
#[derive(Clone, Copy, Debug, PartialEq, Eq, Structural)]
pub enum AirportSlot {
    Departure,
    Arrival,
}

/// A question to the airport index: which airport is closest to this
/// position? The answer goes into the named field of the header.
#[derive(Clone, Copy, Debug)]
pub struct AirportQuery {
    pub slot: AirportSlot,
    /// Longitude in degrees, as the bits of a double.
    pub lng: u64,
    /// Latitude in degrees, as the bits of a double.
    pub lat: u64,
}

/// The stretch that the distance of a new track point is made of: from the
/// point that the file measures from to the new point, on top of the distance
/// flown so far. Positions are degrees and the distance is nautical miles, all
/// as the bits of doubles.
#[derive(Clone, Copy, Debug)]
pub struct Leg {
    pub from_lat: u64,
    pub from_lng: u64,
    pub to_lat: u64,
    pub to_lng: u64,
    /// Distance flown up to the start of the stretch.
    pub flown: u64,
}

/// What is done with a request.
#[derive(Clone, Copy, Debug)]
pub enum Reply {
    /// The request was applied; this response goes to the client.
    Ack(UploadTrackStreamResponse),
    /// The request breaks the protocol: the stream ends and nothing was stored.
    Close,
}

/// The question that a message raises while the header is `header`. A point
/// on the ground asks for the departure airport while none is set; a touchdown
/// asks for the arrival airport while none is set.
pub open spec fn query_for(header: HeaderView, msg: TrackMessage) -> Option<AirportQuery> {
    match msg.union {
        Some(Union::Point(pt)) => if pt.on_gnd && text_of(header.departure).len() == 0 {
            Some(AirportQuery { slot: AirportSlot::Departure, lng: pt.lng, lat: pt.lat })
        } else {
            None
        },
        Some(Union::TouchDown(td)) => if text_of(header.arrival).len() == 0 {
            Some(AirportQuery { slot: AirportSlot::Arrival, lng: td.lng, lat: td.lat })
        } else {
            None
        },
        None => None,
    }
}

/// The stretch to measure for a message while `last` is the point that the
/// file measures from. Only a point has a distance; the first point of a file
/// is measured from itself, with nothing flown.
pub open spec fn leg_for(last: Option<TrackPoint>, msg: TrackMessage) -> Option<Leg> {
    match msg.union {
        Some(Union::Point(pt)) => Some(
            match last {
                Some(from) => Leg {
                    from_lat: from.lat,
                    from_lng: from.lng,
                    to_lat: pt.lat,
                    to_lng: pt.lng,
                    flown: from.distance,
                },
                None => Leg {
                    from_lat: pt.lat,
                    from_lng: pt.lng,
                    to_lat: pt.lat,
                    to_lng: pt.lng,
                    flown: 0,
                },
            },
        ),
        _ => None,
    }
}

/// The header after the answer `closest` to the question of `msg` was noted at
/// the time `now`. Without a question or without an answer it stays as it is.
pub open spec fn tagged(
    header: HeaderView,
    msg: TrackMessage,
    closest: Option<Seq<u8>>,
    now: u64,
) -> HeaderView {
    match (query_for(header, msg), closest) {
        (Some(q), Some(ident)) => match q.slot {
            AirportSlot::Departure => HeaderView {
                departure: kept(ident, 8),
                updated_at: now,
                ..header
            },
            AirportSlot::Arrival => HeaderView { arrival: kept(ident, 8), updated_at: now, ..header },
        },
        _ => header,
    }
}

/// An airport that is set stays: no message changes a departure or an arrival
/// that the header already names, and none ever changes the flight identifier
/// or the magic number.
pub proof fn law_airports_set_once(
    header: HeaderView,
    msg: TrackMessage,
    closest: Option<Seq<u8>>,
    now: u64,
)
    ensures
        text_of(header.departure).len() > 0 ==> tagged(header, msg, closest, now).departure
            == header.departure,
        text_of(header.arrival).len() > 0 ==> tagged(header, msg, closest, now).arrival
            == header.arrival,
        tagged(header, msg, closest, now).flight_id == header.flight_id,
        tagged(header, msg, closest, now).magic == header.magic,
        tagged(header, msg, closest, now).count == header.count,
{
}

/// The image of a file after the answer `closest` to the question of `msg`
/// was noted in its header at the time `now`. Without a question or without
/// an answer nothing is written.
pub open spec fn tagged_image(
    image: Seq<u8>,
    msg: TrackMessage,
    closest: Option<Seq<u8>>,
    now: u64,
) -> Seq<u8> {
    if query_for(image_header(image), msg) is Some && closest is Some {
        with_header(image, tagged(image_header(image), msg, closest, now))
    } else {
        image
    }
}

/// The acknowledgment of request `request_id`, with the answer to a clock
/// probe where the request was one.
pub open spec fn ack_of(request_id: u64, echo: Option<EchoResponse>) -> UploadTrackStreamResponse {
    UploadTrackStreamResponse {
        ack: Some(UploadTrackStreamAck { request_id: request_id, echo_response: echo }),
    }
}

/// The bytes of an optional text.
pub open spec fn opt_bytes(s: Option<&str>) -> Option<Seq<u8>> {
    match s {
        Some(s) => Some(s.spec_bytes()),
        None => None,
    }
}

/// The acknowledgment of request `request_id`.
pub fn ack(request_id: u64, echo: Option<EchoResponse>) -> (r: UploadTrackStreamResponse)
    ensures
        r == ack_of(request_id, echo),
{
    UploadTrackStreamResponse {
        ack: Some(UploadTrackStreamAck { request_id, echo_response: echo }),
    }
}

/// The question that a track message raises to the airport index, if any.
pub fn airport_query(tf: &TrackFile, msg: &TrackMessage) -> (r: Result<
    Option<AirportQuery>,
    TrackFileError,
>)
    requires
        tf.wf(),
    ensures
        r == Ok::<Option<AirportQuery>, TrackFileError>(query_for(tf@.header, *msg)),
{
    match &msg.union {
        Some(union) => match union {
            Union::Point(pt) => {
                if pt.on_gnd {
                    let dep = tf.get_departure()?;
                    if dep.as_str().is_empty() {
                        return Ok(
                            Some(
                                AirportQuery {
                                    slot: AirportSlot::Departure,
                                    lng: pt.lng,
                                    lat: pt.lat,
                                },
                            ),
                        );
                    }
                }
                Ok(None)
            },
            Union::TouchDown(td) => {
                let arr = tf.get_arrival()?;
                if arr.as_str().is_empty() {
                    return Ok(
                        Some(AirportQuery { slot: AirportSlot::Arrival, lng: td.lng, lat: td.lat }),
                    );
                }
                Ok(None)
            },
        },
        None => Ok(None),
    }
}

/// The stretch that the distance of a track message is made of, if the
/// message carries a point. The distance to store with the point is the
/// distance flown so far plus the length of the stretch.
pub fn leg_to_measure(tf: &TrackFile, msg: &TrackMessage) -> (r: Option<Leg>)
    ensures
        r == leg_for(tf.spec_last_point(), *msg),
{
    match &msg.union {
        Some(Union::Point(pt)) => {
            let leg = match tf.last_point() {
                Some(from) => Leg {
                    from_lat: from.lat,
                    from_lng: from.lng,
                    to_lat: pt.lat,
                    to_lng: pt.lng,
                    flown: from.distance,
                },
                None => Leg {
                    from_lat: pt.lat,
                    from_lng: pt.lng,
                    to_lat: pt.lat,
                    to_lng: pt.lng,
                    flown: 0,
                },
            };
            Some(leg)
        },
        _ => None,
    }
}

/// `after` is the file `before` once the track message `msg` was applied at
/// the time `now`: the answer `closest` of the airport index noted in the
/// header, then the record stored with `distance`. A message that carries
/// nothing leaves the file as it is.
pub open spec fn applied(
    before: &TrackFile,
    after: &TrackFile,
    msg: TrackMessage,
    closest: Option<Seq<u8>>,
    distance: u64,
    now: u64,
) -> bool {
    if msg.union is None {
        *after == *before
    } else {
        let header = tagged(before@.header, msg, closest, now);
        let e = TrackFileEntry::of_message(msg).with_distance(distance);
        &&& after.wf()
        &&& after.image() == image_after(tagged_image(before.image(), msg, closest, now), e, now)
        &&& after@.entries == stored(before@.entries, e)
        &&& after@.header == if collapses(before@.entries, e) {
            header
        } else {
            counted_up(header, now)
        }
        &&& after.spec_path() == before.spec_path()
        &&& after.spec_flight_id() == before.spec_flight_id()
        &&& after.spec_last_point() == match e {
            TrackFileEntry::TrackPoint(tp) => Some(tp),
            TrackFileEntry::TouchDown(_) => before.spec_last_point(),
        }
    }
}

/// Applies a track message at the time `now`. `closest` is the airport that
/// the index found for the question of the message; `distance` is the distance
/// flown up to the point of the message, and is not used for a touchdown.
pub fn apply_message(
    tf: &mut TrackFile,
    msg: &TrackMessage,
    closest: Option<&str>,
    distance: u64,
    now: u64,
) -> (r: Result<bool, TrackFileError>)
    requires
        old(tf).wf(),
        old(tf).image().len() + ENTRY_SIZE <= usize::MAX,
    ensures
        r == Ok::<bool, TrackFileError>(msg.union is Some),
        applied(old(tf), final(tf), *msg, opt_bytes(closest), distance, now),
{
    let query = airport_query(tf, msg)?;
    if msg.union.is_none() {
        return Ok(false);
    }
    match (query, closest) {
        (Some(q), Some(ident)) => match q.slot {
            AirportSlot::Departure => {
                tf.set_departure_at(ident, now)?;
            },
            AirportSlot::Arrival => {
                tf.set_arrival_at(ident, now)?;
            },
        },
        _ => {},
    }
    let entry = TrackFileEntry::from(*msg);
    tf.append_at(&entry, distance, now)?;
    Ok(true)
}

/// What a request does at the time `now`, and the reply `reply` to it, where
/// the clock of the server shows `server_us` microseconds.
pub open spec fn handled(
    before: &TrackFile,
    after: &TrackFile,
    req: UploadTrackStreamRequest,
    closest: Option<Seq<u8>>,
    distance: u64,
    now: u64,
    server_us: u64,
    reply: Reply,
) -> bool
    recommends
        req.union is Some,
{
    match req.union->0 {
        RequestUnion::TrackMessage(msg) => {
            &&& applied(before, after, msg, closest, distance, now)
            &&& reply == if msg.union is Some {
                Reply::Ack(ack_of(req.request_id, None))
            } else {
                Reply::Close
            }
        },
        RequestUnion::EchoRequest(probe) => {
            &&& *after == *before
            &&& reply == Reply::Ack(
                ack_of(
                    req.request_id,
                    Some(
                        EchoResponse {
                            client_timestamp_us: probe.timestamp_us,
                            server_timestamp_us: server_us,
                        },
                    ),
                ),
            )
        },
    }
}

/// Handles one request of an upload stream with the clock read as `now`
/// milliseconds and `server_us` microseconds.
pub fn handle_request_at(
    tf: &mut TrackFile,
    req: &UploadTrackStreamRequest,
    closest: Option<&str>,
    distance: u64,
    now: u64,
    server_us: u64,
) -> (r: Result<Reply, TrackFileError>)
    requires
        old(tf).wf(),
        old(tf).image().len() + ENTRY_SIZE <= usize::MAX,
        req.union is Some,
    ensures
        r matches Ok(reply) && handled(
            old(tf),
            final(tf),
            *req,
            opt_bytes(closest),
            distance,
            now,
            server_us,
            reply,
        ),
{
    let request_id = req.request_id;
    match &req.union {
        Some(RequestUnion::TrackMessage(msg)) => {
            let stored = apply_message(tf, msg, closest, distance, now)?;
            if stored {
                Ok(Reply::Ack(ack(request_id, None)))
            } else {
                Ok(Reply::Close)
            }
        },
        Some(RequestUnion::EchoRequest(probe)) => {
            let resp = EchoResponse {
                client_timestamp_us: probe.timestamp_us,
                server_timestamp_us: server_us,
            };
            Ok(Reply::Ack(ack(request_id, Some(resp))))
        },
        None => unreached(),
    }
}

/// The time that a clock probe is answered with, taken from the reply.
pub open spec fn server_time_of(reply: Reply) -> u64 {
    match reply {
        Reply::Ack(resp) => match resp.ack {
            Some(a) => match a.echo_response {
                Some(echo) => echo.server_timestamp_us,
                None => 0,
            },
            None => 0,
        },
        Reply::Close => 0,
    }
}

/// Handles one request of an upload stream.
///
/// A track message is stored in the file, after the airport `closest` was
/// noted in the header where the message asked for one, and is acknowledged
/// with the number of the request. A track message that carries nothing ends
/// the stream. A clock probe is answered with the client's time and the
/// server's, and leaves the file alone.
pub fn handle_request(
    tf: &mut TrackFile,
    req: &UploadTrackStreamRequest,
    closest: Option<&str>,
    distance: u64,
) -> (r: Result<Reply, TrackFileError>)
    requires
        old(tf).wf(),
        old(tf).image().len() + ENTRY_SIZE <= usize::MAX,
        req.union is Some,
    ensures
        r matches Ok(reply) && handled(
            old(tf),
            final(tf),
            *req,
            opt_bytes(closest),
            distance,
            final(tf)@.header.updated_at,
            server_time_of(reply),
            reply,
        ),
{
    let now = now_millis();
    let server_us = now_micros();
    let r = handle_request_at(tf, req, closest, distance, now, server_us);
    proof {
        if let Some(RequestUnion::TrackMessage(msg)) = req.union {
            if msg.union is Some {
                let header = tagged(old(tf)@.header, msg, opt_bytes(closest), now);
                let e = TrackFileEntry::of_message(msg).with_distance(distance);
                if collapses(old(tf)@.entries, e) && header == old(tf)@.header {
                    assert(tagged(
                        old(tf)@.header,
                        msg,
                        opt_bytes(closest),
                        old(tf)@.header.updated_at,
                    ) =~= header);
                }
            }
        }
    }
    r
}

} // verus!
