//! The error type shared by every component of the client.

use vstd::prelude::*;

verus! {

/// What can go wrong while fetching: a transport failure (carried as the
/// driver's description of it), a malformed piece of input, or a numeric
/// status code outside the known set.
#[derive(Debug)]
pub enum WgetError {
    Io(String),
    ParsingError(String),
    InvalidStatusCode(u16),
}

pub type WgetResult<T> = Result<T, WgetError>;

} // verus!
