//! What a client says of itself in the metadata of an upload stream.

use crate::status::{RpcStatus, StatusCode};
use crate::text::concat3;
use tonic::metadata::MetadataMap;
use vstd::prelude::*;

verus! {

/// `MetadataMap` of tonic: the headers that come with a call.
#[verifier::external_type_specification]
#[verifier::external_body]
pub struct ExMetadataMap(MetadataMap);

/// The ASCII entries of a metadata map, as a lookup by key finds them: each
/// key under which there is an entry, with the first value stored under it.
/// The value is `Some` text where it is made of visible ASCII characters
/// alone, and `None` where it is not.
pub uninterp spec fn ascii_entries(meta: MetadataMap) -> Map<Seq<char>, Option<Seq<char>>>;

/// What a lookup of one key finds.
pub enum HeaderText {
    /// No entry under the key.
    Missing,
    /// An entry whose first value is not text.
    Invalid,
    /// An entry whose first value is this text.
    Text(String),
}

/// Looks `key` up with `MetadataMap::get` of tonic and reads the value found
/// with `MetadataValue::to_str`. The first value stored under the key counts.
#[verifier::external_body]
fn header_text(meta: &MetadataMap, key: &str) -> (r: HeaderText)
    ensures
        match r {
            HeaderText::Missing => !ascii_entries(*meta).dom().contains(key@),
            HeaderText::Invalid => ascii_entries(*meta).dom().contains(key@) && ascii_entries(
                *meta,
            )[key@] is None,
            HeaderText::Text(s) => ascii_entries(*meta).dom().contains(key@) && ascii_entries(
                *meta,
            )[key@] == Some(s@),
        },
{
    match meta.get(key) {
        None => HeaderText::Missing,
        Some(value) => match value.to_str() {
            Ok(text) => HeaderText::Text(text.to_string()),
            Err(_) => HeaderText::Invalid,
        },
    }
}

/// The text stored under `key`, if there is an entry and its value is text.
pub open spec fn header_value(meta: MetadataMap, key: Seq<char>) -> Option<Seq<char>> {
    if ascii_entries(meta).dom().contains(key) {
        ascii_entries(meta)[key]
    } else {
        None
    }
}

/// What is wrong with the header `key` where it has no text: it is missing,
/// or its value is not text.
pub open spec fn header_fault(meta: MetadataMap, key: Seq<char>) -> Seq<char> {
    if ascii_entries(meta).dom().contains(key) {
        "invalid "@ + key + " header"@
    } else {
        key + " header is missing"@
    }
}

/// The text of an optional string.
pub open spec fn opt_text(s: Option<String>) -> Option<Seq<char>> {
    match s {
        Some(s) => Some(s@),
        None => None,
    }
}

/// The text stored under `key`. A header that is missing or is not text is
/// reported as an invalid argument.
pub fn extract_key(meta: &MetadataMap, key: &str) -> (r: Result<String, RpcStatus>)
    ensures
        match header_value(*meta, key@) {
            Some(text) => r matches Ok(s) && s@ == text,
            None => r matches Err(status) && status.code == StatusCode::InvalidArgument
                && status.message@ == header_fault(*meta, key@),
        },
{
    match header_text(meta, key) {
        HeaderText::Text(value) => Ok(value),
        HeaderText::Invalid => Err(
            RpcStatus::invalid_argument(concat3("invalid ", key, " header")),
        ),
        HeaderText::Missing => {
            let message = concat3("", key, " header is missing");
            proof {
                reveal_strlit("");
            }
            assert(message@ =~= key@ + " header is missing"@);
            Err(RpcStatus::invalid_argument(message))
        },
    }
}

/// Who uploads, and what.
#[derive(Debug)]
pub struct FlightMeta {
    pub auth_token: String,
    pub flight_id: String,
    pub atc_id: String,
    pub atc_type: Option<String>,
    pub atc_flight_number: Option<String>,
    pub aircraft_title: Option<String>,
}

impl FlightMeta {
    /// The first of the three required headers that has no text, if any:
    /// flight, controller, token, in this order.
    pub open spec fn first_fault(meta: MetadataMap) -> Option<Seq<char>> {
        if header_value(meta, "x-flight-id"@) is None {
            Some("x-flight-id"@)
        } else if header_value(meta, "x-atc-id"@) is None {
            Some("x-atc-id"@)
        } else if header_value(meta, "x-auth-token"@) is None {
            Some("x-auth-token"@)
        } else {
            None
        }
    }

    /// Reads the metadata of an upload stream. The headers `x-flight-id`,
    /// `x-atc-id` and `x-auth-token` are required; `x-atc-type`,
    /// `x-atc-flight-number` and `x-title` are taken where they are text.
    pub fn try_from(value: &MetadataMap) -> (r: Result<Self, RpcStatus>)
        ensures
            match Self::first_fault(*value) {
                Some(key) => r matches Err(status) && status.code == StatusCode::InvalidArgument
                    && status.message@ == header_fault(*value, key),
                None => r matches Ok(m) && Some(m.flight_id@) == header_value(
                    *value,
                    "x-flight-id"@,
                ) && Some(m.atc_id@) == header_value(*value, "x-atc-id"@) && Some(m.auth_token@)
                    == header_value(*value, "x-auth-token"@) && opt_text(m.atc_type)
                    == header_value(*value, "x-atc-type"@) && opt_text(m.atc_flight_number)
                    == header_value(*value, "x-atc-flight-number"@) && opt_text(m.aircraft_title)
                    == header_value(*value, "x-title"@),
            },
    {
        let flight_id = extract_key(value, "x-flight-id")?;
        let atc_id = extract_key(value, "x-atc-id")?;
        let auth_token = extract_key(value, "x-auth-token")?;
        let atc_type = extract_key(value, "x-atc-type").ok();
        let atc_flight_number = extract_key(value, "x-atc-flight-number").ok();
        let aircraft_title = extract_key(value, "x-title").ok();
        Ok(Self { flight_id, atc_id, atc_type, atc_flight_number, aircraft_title, auth_token })
    }
}

} // verus!
