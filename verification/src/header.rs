//! The header that every track file starts with.

use crate::clock::now_millis;
use crate::error::TrackFileError;
use crate::fixedstr::{decode_fixed, encode_fixed, kept, lemma_fixed_roundtrip, text_of, zeros, FixedStr};
use vstd::bytes::*;
use vstd::prelude::*;
use vstd::slice::*;
use vstd::string::*;
use vstd::utf8::*;

verus! {

/// The constant that the first eight bytes of a track file hold.
pub const HEADER_MAGIC_NUMBER: u64 = 0xfb9cfc9b116a158e;

/// The format version written into new headers.
pub const HEADER_VERSION: u64 = 1;

/// Length of a stored header in bytes.
pub const HEADER_SIZE: usize = 112;

/// Capacity of the flight identifier field in bytes.
pub const FLIGHT_ID_CAPACITY: usize = 36;

/// Capacity of an airport code field in bytes.
pub const AIRPORT_CAPACITY: usize = 8;

/// The preamble of a track file.
#[derive(Clone, Copy, Debug)]
pub struct Header {
    magic: u64,
    version: u64,
    updated_at: u64,
    count: u64,
    flight_id: FixedStr<FLIGHT_ID_CAPACITY>,
    departure: FixedStr<AIRPORT_CAPACITY>,
    arrival: FixedStr<AIRPORT_CAPACITY>,
}

/// What a header holds, as plain values. The three texts are given as bytes.
pub struct HeaderView {
    pub magic: u64,
    pub version: u64,
    /// Time of the last change, in milliseconds since the Unix epoch.
    pub updated_at: u64,
    /// Number of records in the file.
    pub count: u64,
    pub flight_id: Seq<u8>,
    pub departure: Seq<u8>,
    pub arrival: Seq<u8>,
}

impl HeaderView {
    /// Each text fits its field.
    pub open spec fn wf(self) -> bool {
        &&& self.flight_id.len() <= 36
        &&& self.departure.len() <= 8
        &&& self.arrival.len() <= 8
    }

    /// The header of a new file for `flight_id`, created at `now`.
    pub open spec fn fresh(flight_id: Seq<u8>, now: u64) -> HeaderView {
        HeaderView {
            magic: HEADER_MAGIC_NUMBER,
            version: HEADER_VERSION,
            updated_at: now,
            count: 0,
            flight_id: flight_id,
            departure: Seq::empty(),
            arrival: Seq::empty(),
        }
    }
}

/// The stored form of a header: four little-endian integers, the flight
/// identifier field with four bytes of padding, and the two airport fields.
pub open spec fn encode_header(h: HeaderView) -> Seq<u8> {
    spec_u64_to_le_bytes(h.magic) + spec_u64_to_le_bytes(h.version) + spec_u64_to_le_bytes(
        h.updated_at,
    ) + spec_u64_to_le_bytes(h.count) + encode_fixed(h.flight_id, 36) + zeros(4) + encode_fixed(
        h.departure,
        8,
    ) + encode_fixed(h.arrival, 8)
}

/// The header that the first 112 bytes of `raw` hold.
pub open spec fn decode_header(raw: Seq<u8>) -> HeaderView {
    HeaderView {
        magic: spec_u64_from_le_bytes(raw.subrange(0, 8)),
        version: spec_u64_from_le_bytes(raw.subrange(8, 16)),
        updated_at: spec_u64_from_le_bytes(raw.subrange(16, 24)),
        count: spec_u64_from_le_bytes(raw.subrange(24, 32)),
        flight_id: decode_fixed(raw.subrange(32, 76), 36),
        departure: decode_fixed(raw.subrange(80, 96), 8),
        arrival: decode_fixed(raw.subrange(96, 112), 8),
    }
}

/// A stored header is 112 bytes long, and decoding it gives the header back.
pub proof fn lemma_header_roundtrip(h: HeaderView)
    requires
        h.wf(),
    ensures
        encode_header(h).len() == HEADER_SIZE,
        decode_header(encode_header(h)) == h,
{
    lemma_auto_spec_u64_to_from_le_bytes();
    lemma_fixed_roundtrip(h.flight_id, 36);
    lemma_fixed_roundtrip(h.departure, 8);
    lemma_fixed_roundtrip(h.arrival, 8);
    let raw = encode_header(h);
    assert(raw.subrange(0, 8) =~= spec_u64_to_le_bytes(h.magic));
    assert(raw.subrange(8, 16) =~= spec_u64_to_le_bytes(h.version));
    assert(raw.subrange(16, 24) =~= spec_u64_to_le_bytes(h.updated_at));
    assert(raw.subrange(24, 32) =~= spec_u64_to_le_bytes(h.count));
    assert(raw.subrange(32, 76) =~= encode_fixed(h.flight_id, 36));
    assert(raw.subrange(80, 96) =~= encode_fixed(h.departure, 8));
    assert(raw.subrange(96, 112) =~= encode_fixed(h.arrival, 8));
}

/// Decoding depends on the first 112 bytes alone.
pub proof fn lemma_decode_header_prefix(a: Seq<u8>, b: Seq<u8>)
    requires
        a.len() >= HEADER_SIZE,
        b.len() >= HEADER_SIZE,
        a.subrange(0, HEADER_SIZE as int) == b.subrange(0, HEADER_SIZE as int),
    ensures
        decode_header(a) == decode_header(b),
{
    let pa = a.subrange(0, HEADER_SIZE as int);
    let pb = b.subrange(0, HEADER_SIZE as int);
    assert forall|i: int, j: int| 0 <= i <= j <= 112 implies #[trigger] a.subrange(i, j)
        == b.subrange(i, j) by {
        assert(a.subrange(i, j) =~= pa.subrange(i, j));
        assert(b.subrange(i, j) =~= pb.subrange(i, j));
    }
}

impl View for Header {
    type V = HeaderView;

    closed spec fn view(&self) -> HeaderView {
        HeaderView {
            magic: self.magic,
            version: self.version,
            updated_at: self.updated_at,
            count: self.count,
            flight_id: self.flight_id@,
            departure: self.departure@,
            arrival: self.arrival@,
        }
    }
}

impl Header {
    /// The texts fit their fields.
    #[verifier::type_invariant]
    pub closed spec fn inv(&self) -> bool {
        self@.wf()
    }

    /// The header of a new file for `flight_id`, stamped with the current time.
    /// An identifier longer than 36 bytes is refused.
    pub fn new(flight_id: &str) -> (r: Result<Self, TrackFileError>)
        ensures
            flight_id.spec_bytes().len() > 36 ==> (r matches Err(
                TrackFileError::InvalidFlightId(reason),
            ) && reason@ == "ID is too long"@),
            flight_id.spec_bytes().len() <= 36 ==> (r matches Ok(h) && h@ == HeaderView::fresh(
                flight_id.spec_bytes(),
                h@.updated_at,
            )),
    {
        let now = now_millis();
        Self::new_at(flight_id, now)
    }

    /// The header of a new file for `flight_id`, created at `now`.
    /// An identifier longer than 36 bytes is refused.
    pub fn new_at(flight_id: &str, now: u64) -> (r: Result<Self, TrackFileError>)
        ensures
            flight_id.spec_bytes().len() > 36 ==> (r matches Err(
                TrackFileError::InvalidFlightId(reason),
            ) && reason@ == "ID is too long"@),
            flight_id.spec_bytes().len() <= 36 ==> (r matches Ok(h) && h@ == HeaderView::fresh(
                flight_id.spec_bytes(),
                now,
            )),
    {
        if flight_id.as_bytes().len() > FLIGHT_ID_CAPACITY {
            return Err(TrackFileError::InvalidFlightId("ID is too long"));
        }
        Ok(
            Self {
                magic: HEADER_MAGIC_NUMBER,
                version: HEADER_VERSION,
                updated_at: now,
                count: 0,
                flight_id: FixedStr::new(flight_id),
                departure: FixedStr::default(),
                arrival: FixedStr::default(),
            },
        )
    }

    /// The number that the header starts with.
    pub fn magic(&self) -> (r: u64)
        ensures
            r == self@.magic,
    {
        self.magic
    }

    /// `true` when the header starts with the magic number.
    pub fn check_magic(&self) -> (r: bool)
        ensures
            r == (self@.magic == HEADER_MAGIC_NUMBER),
    {
        self.magic == HEADER_MAGIC_NUMBER
    }

    /// The format version.
    pub fn version(&self) -> (r: u64)
        ensures
            r == self@.version,
    {
        self.version
    }

    /// Time of the last change, in milliseconds since the Unix epoch.
    pub fn timestamp(&self) -> (r: u64)
        ensures
            r == self@.updated_at,
    {
        self.updated_at
    }

    /// Number of records.
    pub fn count(&self) -> (r: u64)
        ensures
            r == self@.count,
    {
        self.count
    }

    /// Stamps the header with the current time.
    pub fn touch(&mut self)
        ensures
            final(self)@ == (HeaderView { updated_at: final(self)@.updated_at, ..old(self)@ }),
    {
        let now = now_millis();
        self.touch_at(now);
    }

    /// Stamps the header with the time `now`.
    pub fn touch_at(&mut self, now: u64)
        ensures
            final(self)@ == (HeaderView { updated_at: now, ..old(self)@ }),
    {
        proof {
            use_type_invariant(&*self);
        }
        self.updated_at = now;
    }

    /// Counts one more record and stamps the header with the current time.
    pub fn inc(&mut self)
        requires
            old(self)@.count < u64::MAX,
        ensures
            final(self)@ == (HeaderView {
                count: (old(self)@.count + 1) as u64,
                updated_at: final(self)@.updated_at,
                ..old(self)@
            }),
    {
        let now = now_millis();
        self.inc_at(now);
    }

    /// Counts one more record and stamps the header with the time `now`.
    pub fn inc_at(&mut self, now: u64)
        requires
            old(self)@.count < u64::MAX,
        ensures
            final(self)@ == (HeaderView {
                count: (old(self)@.count + 1) as u64,
                updated_at: now,
                ..old(self)@
            }),
    {
        proof {
            use_type_invariant(&*self);
        }
        self.count += 1;
        self.touch_at(now);
    }

    /// Sets the departure airport to `departure`, truncated to 8 bytes, and
    /// stamps the header with the current time.
    pub fn set_departure(&mut self, departure: &str)
        ensures
            final(self)@ == (HeaderView {
                departure: kept(departure.spec_bytes(), 8),
                updated_at: final(self)@.updated_at,
                ..old(self)@
            }),
    {
        let now = now_millis();
        self.set_departure_at(departure, now);
    }

    /// Sets the departure airport to `departure`, truncated to 8 bytes, and
    /// stamps the header with the time `now`.
    pub fn set_departure_at(&mut self, departure: &str, now: u64)
        ensures
            final(self)@ == (HeaderView {
                departure: kept(departure.spec_bytes(), 8),
                updated_at: now,
                ..old(self)@
            }),
    {
        proof {
            use_type_invariant(&*self);
        }
        self.departure = FixedStr::new(departure);
        self.touch_at(now);
    }

    /// Sets the arrival airport to `arrival`, truncated to 8 bytes, and stamps
    /// the header with the current time.
    pub fn set_arrival(&mut self, arrival: &str)
        ensures
            final(self)@ == (HeaderView {
                arrival: kept(arrival.spec_bytes(), 8),
                updated_at: final(self)@.updated_at,
                ..old(self)@
            }),
    {
        let now = now_millis();
        self.set_arrival_at(arrival, now);
    }

    /// Sets the arrival airport to `arrival`, truncated to 8 bytes, and stamps
    /// the header with the time `now`.
    pub fn set_arrival_at(&mut self, arrival: &str, now: u64)
        ensures
            final(self)@ == (HeaderView {
                arrival: kept(arrival.spec_bytes(), 8),
                updated_at: now,
                ..old(self)@
            }),
    {
        proof {
            use_type_invariant(&*self);
        }
        self.arrival = FixedStr::new(arrival);
        self.touch_at(now);
    }

    /// The stored form of the header: 112 bytes.
    pub fn to_bytes(&self) -> (r: Vec<u8>)
        ensures
            r@ == encode_header(self@),
            r@.len() == HEADER_SIZE,
            self@.wf(),
    {
        proof {
            use_type_invariant(self);
            lemma_header_roundtrip(self@);
        }
        let mut out = u64_to_le_bytes(self.magic);
        let mut version = u64_to_le_bytes(self.version);
        out.append(&mut version);
        let mut updated_at = u64_to_le_bytes(self.updated_at);
        out.append(&mut updated_at);
        let mut count = u64_to_le_bytes(self.count);
        out.append(&mut count);
        let mut flight_id = self.flight_id.to_bytes();
        out.append(&mut flight_id);
        let mut padding: Vec<u8> = vec![0u8, 0u8, 0u8, 0u8];
        assert(padding@ =~= zeros(4));
        out.append(&mut padding);
        let mut departure = self.departure.to_bytes();
        out.append(&mut departure);
        let mut arrival = self.arrival.to_bytes();
        out.append(&mut arrival);
        out
    }

    /// Reads a header from the first 112 bytes of `raw`. A shorter buffer is
    /// refused with its length.
    pub fn from_bytes(raw: &[u8]) -> (r: Result<Self, TrackFileError>)
        ensures
            raw@.len() < HEADER_SIZE ==> (r matches Err(
                TrackFileError::InsufficientDataLength(ident, got),
            ) && ident@ == "header"@ && got == raw@.len()),
            raw@.len() >= HEADER_SIZE ==> (r matches Ok(h) && h@ == decode_header(raw@) && h@.wf()),
    {
        if raw.len() < HEADER_SIZE {
            return Err(
                TrackFileError::InsufficientDataLength(String::from_str("header"), raw.len()),
            );
        }
        let flight_id = FixedStr::<36>::from_bytes(slice_subrange(raw, 32, 76));
        let departure = FixedStr::<8>::from_bytes(slice_subrange(raw, 80, 96));
        let arrival = FixedStr::<8>::from_bytes(slice_subrange(raw, 96, 112));
        proof {
            flight_id.lemma_bounded();
            departure.lemma_bounded();
            arrival.lemma_bounded();
        }
        Ok(
            Self {
                magic: u64_from_le_bytes(slice_subrange(raw, 0, 8)),
                version: u64_from_le_bytes(slice_subrange(raw, 8, 16)),
                updated_at: u64_from_le_bytes(slice_subrange(raw, 16, 24)),
                count: u64_from_le_bytes(slice_subrange(raw, 24, 32)),
                flight_id,
                departure,
                arrival,
            },
        )
    }

    /// The departure airport; empty while none is set.
    pub fn get_departure(&self) -> (r: String)
        ensures
            r@ == text_of(self@.departure),
    {
        self.departure.as_string()
    }

    /// The arrival airport; empty while none is set.
    pub fn get_arrival(&self) -> (r: String)
        ensures
            r@ == text_of(self@.arrival),
    {
        self.arrival.as_string()
    }

    /// The flight identifier.
    pub fn get_flight_id(&self) -> (r: String)
        ensures
            r@ == text_of(self@.flight_id),
    {
        self.flight_id.as_string()
    }
}

} // verus!
