//! URL schemes the parser recognizes, with their default ports.

use vstd::prelude::*;

use crate::error::WgetError;
use crate::text::str_eq;

verus! {

#[derive(Debug, Clone, Copy, PartialEq, Eq, Structural)]
pub enum Protocol {
    Http,
    Https,
    Ftp,
}

/// The protocol named by a scheme string (colon included), if any.
pub open spec fn spec_protocol_of(s: Seq<char>) -> Option<Protocol> {
    if s == "http:"@ {
        Some(Protocol::Http)
    } else if s == "https:"@ {
        Some(Protocol::Https)
    } else if s == "ftp:"@ {
        Some(Protocol::Ftp)
    } else {
        None
    }
}

impl Protocol {
    /// The default port of each protocol.
    pub open spec fn spec_port(self) -> u16 {
        match self {
            Protocol::Http => 80,
            Protocol::Https => 443,
            Protocol::Ftp => 21,
        }
    }

    pub fn get_port(&self) -> (r: u16)
        ensures
            r == self.spec_port(),
    {
        match self {
            Protocol::Http => 80,
            Protocol::Https => 443,
            Protocol::Ftp => 21,
        }
    }

    /// Parses a scheme string such as `"http:"` (the trailing colon is part
    /// of the scheme). Anything but the three known schemes is rejected.
    pub fn from_str(s: &str) -> (r: Result<Protocol, WgetError>)
        ensures
            match spec_protocol_of(s@) {
                Some(p) => r == Ok::<Protocol, WgetError>(p),
                None => r matches Err(WgetError::ParsingError(_)),
            },
    {
        if str_eq(s, "http:") {
            Ok(Protocol::Http)
        } else if str_eq(s, "https:") {
            Ok(Protocol::Https)
        } else if str_eq(s, "ftp:") {
            Ok(Protocol::Ftp)
        } else {
            let mut msg = String::new();
            msg.append("Unknown protocol: ");
            msg.append(s);
            Err(WgetError::ParsingError(msg))
        }
    }
}

} // verus!
