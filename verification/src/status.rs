//! The outcome of a call as the service reports it to a client.

use crate::error::TrackFileError;
use vstd::prelude::*;

verus! {

/// The kind of a failed call.
#[derive(Clone, Copy, Debug, PartialEq, Eq, Structural)]
pub enum StatusCode {
    /// What was asked for does not exist.
    NotFound,
    /// The service failed.
    Internal,
    /// The client sent something that cannot be used.
    InvalidArgument,
}

/// A failed call: its kind and a message for the client.
#[derive(Debug)]
pub struct RpcStatus {
    pub code: StatusCode,
    pub message: String,
}

impl RpcStatus {
    /// What was asked for does not exist.
    pub fn not_found(message: String) -> (r: Self)
        ensures
            r.code == StatusCode::NotFound,
            r.message@ == message@,
    {
        Self { code: StatusCode::NotFound, message }
    }

    /// The service failed.
    pub fn internal(message: String) -> (r: Self)
        ensures
            r.code == StatusCode::Internal,
            r.message@ == message@,
    {
        Self { code: StatusCode::Internal, message }
    }

    /// The client sent something that cannot be used.
    pub fn invalid_argument(message: String) -> (r: Self)
        ensures
            r.code == StatusCode::InvalidArgument,
            r.message@ == message@,
    {
        Self { code: StatusCode::InvalidArgument, message }
    }

    /// The status that reports a storage error: a missing file is reported as
    /// not found, with its path as the message; everything else as a failure of
    /// the service, with the message of the error.
    pub fn from(value: TrackFileError) -> (r: Self)
        ensures
            match value {
                TrackFileError::NotFound(path) => r.code == StatusCode::NotFound && r.message@
                    == path@,
                _ => r.code == StatusCode::Internal && value.described_by(r.message@),
            },
    {
        match value {
            TrackFileError::NotFound(path) => Self::not_found(path),
            _ => {
                let message = value.to_string();
                Self::internal(message)
            },
        }
    }
}

} // verus!
