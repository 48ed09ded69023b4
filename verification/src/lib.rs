//! A verified core for a minimal HTTP/1.x client: URL decomposition,
//! request/response wire codecs (including chunked-transfer reassembly),
//! a per-host connection cache index, and the redirect-following fetch loop.
//!
//! All transport I/O lives outside this crate; the library works on plain
//! strings and byte vectors handed in by a driver.

use vstd::prelude::*;

pub mod cache;
pub mod common;
pub mod error;
pub mod fetch;
pub mod headers;
pub mod protocol;
pub mod request;
pub mod response;
pub mod status;
pub mod text;
pub mod url;
pub mod wire;

verus! {

/// Process-wide, read-only knobs. `debug` gates diagnostic output in drivers;
/// the verified core itself never logs.
pub struct Configuration {
    pub debug: u8,
}

impl Default for Configuration {
    fn default() -> (r: Self)
        ensures
            r.debug == 0,
    {
        Configuration { debug: 0 }
    }
}

} // verus!
