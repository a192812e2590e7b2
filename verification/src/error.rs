//! Error type for the core domain.

use vstd::prelude::*;

use crate::bytes::HexError;
use crate::ids::WorkspaceId;

verus! {

/// What can go wrong with the configuration of a machine. Causes that come from
/// the file system or from a parser are carried as their text.
#[derive(Debug)]
pub enum Error {
    Io { path: String, source: String },
    PlainIo(String),
    Parse { path: String, source: String },
    Serialize(String),
    NoConfigDir,
    Hex(HexError),
    BadKey(String),
    KeyLength { expected: usize, got: usize },
    WorkspaceMismatch { incoming: WorkspaceId, local: WorkspaceId },
    SchemaVersion { found: u32, supported: u32 },
}

pub type Result<T> = core::result::Result<T, Error>;

} // verus!
