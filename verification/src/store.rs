//! The directory layout of the store and the way from a flight to its file.

use crate::config::TrackConfig;
use crate::error::TrackFileError;
use crate::header::FLIGHT_ID_CAPACITY;
use crate::trackfile::TrackFile;
use vstd::prelude::*;
use vstd::string::{is_ascii, is_ascii_spec_bytes, StrSliceExecFns, StringExecFns,
    StringSliceAdditionalSpecFns};

verus! {

/// Number of characters of a flight identifier that name one directory level.
pub const SUBKEY_LENGTH: usize = 3;

/// Number of directory levels between the root and a track file.
pub const NESTING_LEVEL: usize = 2;

/// The store: a root directory with one file per flight, two levels down.
#[derive(Debug)]
pub struct TrackStore {
    folder: String,
}

/// A flight identifier that can name a track file: ASCII, long enough for the
/// directory levels, short enough for the header.
pub open spec fn valid_flight_id(flight_id: &str) -> bool {
    &&& is_ascii(flight_id)
    &&& NESTING_LEVEL * SUBKEY_LENGTH <= flight_id@.len() <= FLIGHT_ID_CAPACITY
}

/// What is wrong with a flight identifier that cannot name a track file. Its
/// length in bytes is looked at first, then its characters.
pub open spec fn fault_of(flight_id: &str) -> Seq<char> {
    if flight_id.spec_bytes().len() < NESTING_LEVEL * SUBKEY_LENGTH {
        "ID is too short or empty"@
    } else if flight_id.spec_bytes().len() > FLIGHT_ID_CAPACITY {
        "ID is too long"@
    } else {
        "ID is not ASCII"@
    }
}

/// The directory of a flight below `folder`: one level for the first three
/// characters of the identifier, one for the next three.
pub open spec fn dir_of(folder: Seq<char>, flight_id: Seq<char>) -> Seq<char> {
    folder + seq!['/'] + flight_id.subrange(0, 3) + seq!['/'] + flight_id.subrange(3, 6)
}

/// The file of a flight below `folder`: in its directory, named by the
/// identifier with the extension `.bin`.
pub open spec fn file_of(folder: Seq<char>, flight_id: Seq<char>) -> Seq<char> {
    dir_of(folder, flight_id) + seq!['/'] + flight_id + seq!['.', 'b', 'i', 'n']
}

impl TrackStore {
    /// The root directory.
    pub closed spec fn spec_folder(&self) -> Seq<char> {
        self.folder@
    }

    /// The store below the folder that the settings name.
    pub fn new(cfg: &TrackConfig) -> (r: Self)
        ensures
            r.spec_folder() == cfg.folder@,
    {
        Self { folder: cfg.folder.clone() }
    }

    /// Accepts the flight identifiers that can name a track file.
    pub fn check_flight_id(&self, flight_id: &str) -> (r: Result<(), TrackFileError>)
        ensures
            r is Ok <==> valid_flight_id(flight_id),
            r is Err ==> (r matches Err(TrackFileError::InvalidFlightId(reason)) && reason@
                == fault_of(flight_id)),
    {
        proof {
            is_ascii_spec_bytes(flight_id);
        }
        let len = flight_id.as_bytes().len();
        if len < NESTING_LEVEL * SUBKEY_LENGTH {
            Err(TrackFileError::InvalidFlightId("ID is too short or empty"))
        } else if len > FLIGHT_ID_CAPACITY {
            Err(TrackFileError::InvalidFlightId("ID is too long"))
        } else if !flight_id.is_ascii() {
            Err(TrackFileError::InvalidFlightId("ID is not ASCII"))
        } else {
            Ok(())
        }
    }

    /// The directory that holds the file of a flight.
    pub fn target_dir(&self, flight_id: &str) -> (r: String)
        requires
            valid_flight_id(flight_id),
        ensures
            r@ == dir_of(self.spec_folder(), flight_id@),
    {
        let mut path = self.folder.clone();
        let mut i: usize = 0;
        while i < NESTING_LEVEL
            invariant
                i <= NESTING_LEVEL,
                valid_flight_id(flight_id),
                i == 0 ==> path@ == self.spec_folder(),
                i == 1 ==> path@ == self.spec_folder() + seq!['/'] + flight_id@.subrange(0, 3),
                i == 2 ==> path@ == dir_of(self.spec_folder(), flight_id@),
            decreases NESTING_LEVEL - i,
        {
            let subkey = flight_id.substring_ascii(i * SUBKEY_LENGTH, (i + 1) * SUBKEY_LENGTH);
            proof {
                reveal_strlit("/");
            }
            path.append("/");
            path.append(subkey);
            assert("/"@ =~= seq!['/']);
            i += 1;
        }
        path
    }

    /// The path of the file of a flight. An identifier that cannot name a
    /// file is refused.
    pub fn file_path(&self, flight_id: &str) -> (r: Result<String, TrackFileError>)
        ensures
            valid_flight_id(flight_id) ==> (r matches Ok(p) && p@ == file_of(
                self.spec_folder(),
                flight_id@,
            )),
            !valid_flight_id(flight_id) ==> (r matches Err(TrackFileError::InvalidFlightId(reason))
                && reason@ == fault_of(flight_id)),
    {
        match self.check_flight_id(flight_id) {
            Ok(()) => {},
            Err(err) => {
                return Err(err);
            },
        }
        let mut path = self.target_dir(flight_id);
        proof {
            reveal_strlit("/");
            reveal_strlit(".bin");
        }
        path.append("/");
        path.append(flight_id);
        path.append(".bin");
        assert(path@ =~= file_of(self.spec_folder(), flight_id@));
        Ok(path)
    }

    /// Opens the file of a flight from the bytes found at its path, or creates
    /// it where nothing was found there (`None`).
    pub fn open_or_create(&self, flight_id: &str, image: Option<Vec<u8>>) -> (r: Result<
        TrackFile,
        TrackFileError,
    >)
        ensures
            !valid_flight_id(flight_id) ==> (r matches Err(TrackFileError::InvalidFlightId(reason))
                && reason@ == fault_of(flight_id)),
            valid_flight_id(flight_id) ==> match image {
                Some(img) => TrackFile::opened(file_of(self.spec_folder(), flight_id@), img@, r),
                None => r matches Ok(tf) && tf.created(
                    file_of(self.spec_folder(), flight_id@),
                    flight_id@,
                    flight_id.spec_bytes(),
                    tf@.header.updated_at,
                ),
            },
    {
        let path = self.file_path(flight_id)?;
        proof {
            is_ascii_spec_bytes(flight_id);
        }
        TrackFile::new(path.as_str(), image, flight_id)
    }

    /// Opens the file of a flight from the bytes found at its path. Where
    /// nothing was found there (`None`), the file is reported missing.
    pub fn open(&self, flight_id: &str, image: Option<Vec<u8>>) -> (r: Result<
        TrackFile,
        TrackFileError,
    >)
        ensures
            !valid_flight_id(flight_id) ==> (r matches Err(TrackFileError::InvalidFlightId(reason))
                && reason@ == fault_of(flight_id)),
            valid_flight_id(flight_id) ==> match image {
                Some(img) => TrackFile::opened(file_of(self.spec_folder(), flight_id@), img@, r),
                None => r matches Err(TrackFileError::NotFound(p)) && p@ == file_of(
                    self.spec_folder(),
                    flight_id@,
                ),
            },
    {
        let path = self.file_path(flight_id)?;
        TrackFile::open(path.as_str(), image)
    }
}

} // verus!
