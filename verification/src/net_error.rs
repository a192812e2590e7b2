//! Error type of the networking side.

use vstd::prelude::*;

verus! {

/// What can go wrong between two machines. Causes that come from a socket or a
/// parser are carried as their text.
#[derive(Debug)]
pub enum NetError {
    Io(String),
    Json(String),
    Handshake(&'static str),
    Crypto(&'static str),
    Core(crate::error::Error),
    FrameTooLarge(usize),
    Timeout,
    Closed,
}

pub type NetResult<T> = core::result::Result<T, NetError>;

} // verus!
