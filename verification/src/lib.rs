//! Append-only storage of aircraft flight tracks and the engines that feed and replay it.
//!
//! A track file is a fixed header followed by record slots of one width. Every
//! function here works on plain values and on the byte image of such a file;
//! reading and writing the image on disk is left to the caller.

pub mod apiconnect;
mod clock;
pub mod config;
pub mod entry;
pub mod error;
pub mod fixedstr;
pub mod header;
pub mod image;
pub mod ingest;
pub mod meta;
pub mod replay;
pub mod state;
pub mod status;
pub mod store;
pub mod tail;
pub mod text;
pub mod trackfile;
pub mod wire;
