//! Replaying a recorded track against the service at the pace it was recorded.

use crate::apiconnect::authorization;
use crate::text::{concat3, decimal, decimal_text};
use crate::wire::{RequestUnion, TrackMessage, UploadTrackStreamRequest};
use vstd::prelude::*;
use vstd::string::StringExecFns;

verus! {

/// Longest pause, in milliseconds, that a replay of a watched track makes
/// between two points.
pub const MAX_PAUSE_MS: u64 = 10000;

/// A track file as the source of a replay.
#[derive(Debug)]
pub struct TrackFileReader {
    path: String,
}

impl TrackFileReader {
    /// Where the file lies.
    pub closed spec fn spec_path(&self) -> Seq<char> {
        self.path@
    }

    /// The reader of the file at `path`.
    pub fn new(path: &str) -> (r: Self)
        ensures
            r.spec_path() == path@,
    {
        Self { path: String::from_str(path) }
    }

    /// Where the file lies.
    pub fn path(&self) -> (r: &str)
        ensures
            r@ == self.spec_path(),
    {
        self.path.as_str()
    }
}

/// How long to wait before a record of the time `ts` is sent, in
/// milliseconds, when the replay runs `shift` milliseconds behind the
/// recording and the clock shows `now`: the time that the record is still
/// ahead, or nothing where its time has come.
pub open spec fn pause_of(ts: u64, now: u64, shift: u64) -> Option<u64> {
    if ts > now - shift {
        Some((ts - (now - shift)) as u64)
    } else {
        None
    }
}

/// How long to wait before a record of the time `ts` is sent.
pub fn pause_before(ts: u64, now: u64, shift: u64) -> (r: Option<u64>)
    requires
        shift <= now,
    ensures
        r == pause_of(ts, now, shift),
{
    let adj_now = now - shift;
    if ts > adj_now {
        Some(ts - adj_now)
    } else {
        None
    }
}

/// A pause cut down to the longest that a replay of a watched track makes.
pub fn capped(pause: u64) -> (r: u64)
    ensures
        r == if pause > MAX_PAUSE_MS {
            MAX_PAUSE_MS
        } else {
            pause
        },
{
    if pause > MAX_PAUSE_MS {
        MAX_PAUSE_MS
    } else {
        pause
    }
}

/// The client side of an upload.
#[derive(Debug)]
pub struct Sender {
    token: String,
    domain: String,
    port: u16,
}

impl Sender {
    /// The token that the sender presents.
    pub closed spec fn spec_token(&self) -> Seq<char> {
        self.token@
    }

    /// The host of the service.
    pub closed spec fn spec_domain(&self) -> Seq<char> {
        self.domain@
    }

    /// The port of the track service.
    pub closed spec fn spec_port(&self) -> u16 {
        self.port
    }

    /// A sender for the service at `domain`, with the track service on `port`.
    pub fn new(domain: String, port: u16, token: String) -> (r: Self)
        ensures
            r.spec_domain() == domain@,
            r.spec_port() == port,
            r.spec_token() == token@,
    {
        Self { token, domain, port }
    }

    /// The address at which a flight is registered.
    pub fn flights_url(&self) -> (r: String)
        ensures
            r@ == "https://"@ + self.spec_domain() + "/api/v1/flights/"@,
    {
        concat3("https://", self.domain.as_str(), "/api/v1/flights/")
    }

    /// The address of the track service.
    pub fn endpoint(&self) -> (r: String)
        ensures
            r@ == "http://"@ + self.spec_domain() + ":"@ + decimal_text(self.spec_port() as nat),
    {
        let mut dst = concat3("http://", self.domain.as_str(), ":");
        dst.append(decimal(self.port as usize).as_str());
        dst
    }

    /// The value of the authorization header that presents the sender's token.
    pub fn auth_header(&self) -> (r: String)
        ensures
            r@ == "Token "@ + self.spec_token(),
    {
        authorization(self.token.as_str())
    }

    /// The upload request that carries `msg` under the number `idx`.
    pub fn request(idx: u64, msg: TrackMessage) -> (r: UploadTrackStreamRequest)
        ensures
            r == (UploadTrackStreamRequest {
                request_id: idx,
                union: Some(RequestUnion::TrackMessage(msg)),
            }),
    {
        UploadTrackStreamRequest { request_id: idx, union: Some(RequestUnion::TrackMessage(msg)) }
    }
}

} // verus!
