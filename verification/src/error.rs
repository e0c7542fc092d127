//! Errors of the storage layer.

use crate::text::{concat3, decimal, decimal_text};
use vstd::prelude::*;
use vstd::string::StringExecFns;

verus! {

/// `std::io::Error`, carried as it comes from the operating system.
#[verifier::external_type_specification]
#[verifier::external_body]
pub struct ExIoError(std::io::Error);

/// What can go wrong with a track file.
#[derive(Debug)]
pub enum TrackFileError {
    /// The operating system refused an operation on the file.
    IOError(std::io::Error),
    /// The header does not start with the magic number.
    InvalidMagicNumber,
    /// The file is not as long as its header says: expected and actual length in bytes.
    InvalidFileLength(usize, usize),
    /// A buffer is too short to hold the named item: the item and the length found.
    InsufficientDataLength(String, usize),
    /// No record has this index.
    IndexError(usize),
    /// No file exists at this path.
    NotFound(String),
    /// The flight identifier cannot name a track file: the reason.
    InvalidFlightId(&'static str),
}

impl From<std::io::Error> for TrackFileError {
    fn from(value: std::io::Error) -> (r: Self) {
        TrackFileError::IOError(value)
    }
}

impl vstd::std_specs::convert::FromSpecImpl<std::io::Error> for TrackFileError {
    open spec fn obeys_from_spec() -> bool {
        true
    }

    open spec fn from_spec(value: std::io::Error) -> Self {
        TrackFileError::IOError(value)
    }
}

/// The description of an I/O error, as `to_string` of `std::io::Error` gives
/// it. The text comes from the operating system; nothing is claimed of it.
#[verifier::external_body]
fn io_error_text(err: &std::io::Error) -> String {
    err.to_string()
}

impl TrackFileError {
    /// `text` is the message of this error. Of an I/O error only the start of
    /// the message is fixed; the rest is the system's description.
    pub open spec fn described_by(&self, text: Seq<char>) -> bool {
        match self {
            TrackFileError::IOError(_) => "TrackFileError: "@.is_prefix_of(text),
            TrackFileError::InvalidMagicNumber => text
                == "Track file corrupted, invalid magic number"@,
            TrackFileError::InvalidFileLength(expected, got) => text
                == "Invalid track file length: expected "@ + decimal_text(*expected as nat)
                + ", got "@ + decimal_text(*got as nat),
            TrackFileError::InsufficientDataLength(ident, size) => text
                == "Insufficient data length while parsing "@ + ident@ + ": "@ + decimal_text(
                *size as nat,
            ),
            TrackFileError::IndexError(idx) => text == "Invalid index "@ + decimal_text(
                *idx as nat,
            ) + " while reading track file data"@,
            TrackFileError::NotFound(filename) => text == "Track file "@ + filename@
                + " not found"@,
            TrackFileError::InvalidFlightId(reason) => text == "FlightId is incorrect: "@
                + reason@,
        }
    }

    /// The message of the error.
    pub fn to_string(&self) -> (r: String)
        ensures
            self.described_by(r@),
    {
        match self {
            TrackFileError::IOError(err) => {
                let mut s = String::from_str("TrackFileError: ");
                let text = io_error_text(err);
                s.append(text.as_str());
                s
            },
            TrackFileError::InvalidMagicNumber => String::from_str(
                "Track file corrupted, invalid magic number",
            ),
            TrackFileError::InvalidFileLength(expected, got) => {
                let mut s = String::from_str("Invalid track file length: expected ");
                s.append(decimal(*expected).as_str());
                s.append(", got ");
                s.append(decimal(*got).as_str());
                s
            },
            TrackFileError::InsufficientDataLength(ident, size) => {
                let mut s = String::from_str("Insufficient data length while parsing ");
                s.append(ident.as_str());
                s.append(": ");
                s.append(decimal(*size).as_str());
                s
            },
            TrackFileError::IndexError(idx) => {
                let mut s = String::from_str("Invalid index ");
                s.append(decimal(*idx).as_str());
                s.append(" while reading track file data");
                s
            },
            TrackFileError::NotFound(filename) => concat3(
                "Track file ",
                filename.as_str(),
                " not found",
            ),
            TrackFileError::InvalidFlightId(reason) => {
                let mut s = String::from_str("FlightId is incorrect: ");
                s.append(reason);
                s
            },
        }
    }
}

} // verus!
