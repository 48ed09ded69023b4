//! The HTTP protocol versions the codec understands.

use vstd::prelude::*;

use crate::error::WgetError;
use crate::text::str_eq;

verus! {

#[derive(Debug, Clone, Copy, PartialEq, Eq, Structural)]
pub enum HttpVersion {
    Version0_9,
    Version1_0,
    Version1_1,
    Version2_0,
}

/// The version named by a token such as `"HTTP/1.1"`, if any.
pub open spec fn spec_version_of(s: Seq<char>) -> Option<HttpVersion> {
    if s == "HTTP/0.9"@ {
        Some(HttpVersion::Version0_9)
    } else if s == "HTTP/1.0"@ {
        Some(HttpVersion::Version1_0)
    } else if s == "HTTP/1.1"@ {
        Some(HttpVersion::Version1_1)
    } else if s == "HTTP/2"@ {
        Some(HttpVersion::Version2_0)
    } else {
        None
    }
}

impl HttpVersion {
    /// The wire token of each version.
    pub open spec fn spec_str(self) -> Seq<char> {
        match self {
            HttpVersion::Version0_9 => "HTTP/0.9"@,
            HttpVersion::Version1_0 => "HTTP/1.0"@,
            HttpVersion::Version1_1 => "HTTP/1.1"@,
            HttpVersion::Version2_0 => "HTTP/2"@,
        }
    }

    pub fn as_str(&self) -> (r: &'static str)
        ensures
            r@ == self.spec_str(),
    {
        match self {
            HttpVersion::Version0_9 => "HTTP/0.9",
            HttpVersion::Version1_0 => "HTTP/1.0",
            HttpVersion::Version1_1 => "HTTP/1.1",
            HttpVersion::Version2_0 => "HTTP/2",
        }
    }

    /// Parses a version token from a status or request line.
    pub fn from_str(s: &str) -> (r: Result<HttpVersion, WgetError>)
        ensures
            match spec_version_of(s@) {
                Some(v) => r == Ok::<HttpVersion, WgetError>(v),
                None => r matches Err(WgetError::ParsingError(_)),
            },
    {
        if str_eq(s, "HTTP/0.9") {
            Ok(HttpVersion::Version0_9)
        } else if str_eq(s, "HTTP/1.0") {
            Ok(HttpVersion::Version1_0)
        } else if str_eq(s, "HTTP/1.1") {
            Ok(HttpVersion::Version1_1)
        } else if str_eq(s, "HTTP/2") {
            Ok(HttpVersion::Version2_0)
        } else {
            let mut msg = String::new();
            msg.append("Invalid Version ");
            msg.append(s);
            Err(WgetError::ParsingError(msg))
        }
    }
}

/// The wire token determines the version: parsing a rendered token gives
/// back the version it came from.
pub proof fn lemma_version_token_round_trip(v: HttpVersion)
    ensures
        spec_version_of(v.spec_str()) == Some(v),
{
    reveal_strlit("HTTP/0.9");
    reveal_strlit("HTTP/1.0");
    reveal_strlit("HTTP/1.1");
    reveal_strlit("HTTP/2");
    match v {
        HttpVersion::Version0_9 => {
            assert(spec_version_of("HTTP/0.9"@) == Some(HttpVersion::Version0_9));
        },
        HttpVersion::Version1_0 => {
            assert("HTTP/1.0"@ != "HTTP/0.9"@) by {
                assert("HTTP/1.0"@[5] != "HTTP/0.9"@[5]);
            }
            assert(spec_version_of("HTTP/1.0"@) == Some(HttpVersion::Version1_0));
        },
        HttpVersion::Version1_1 => {
            assert("HTTP/1.1"@ != "HTTP/0.9"@) by {
                assert("HTTP/1.1"@[5] != "HTTP/0.9"@[5]);
            }
            assert("HTTP/1.1"@ != "HTTP/1.0"@) by {
                assert("HTTP/1.1"@[7] != "HTTP/1.0"@[7]);
            }
            assert(spec_version_of("HTTP/1.1"@) == Some(HttpVersion::Version1_1));
        },
        HttpVersion::Version2_0 => {
            assert("HTTP/2"@.len() != "HTTP/0.9"@.len());
            assert(spec_version_of("HTTP/2"@) == Some(HttpVersion::Version2_0));
        },
    }
}

} // verus!
