//! URL decomposition: scheme, host, port, path, and the default file name
//! the fetched document is saved under.

use vstd::prelude::*;

use crate::error::WgetError;
use crate::protocol::{spec_protocol_of, Protocol};
use crate::text::{
    all_dec_digits, dec_val, find_char, first_occ, last_occ, parse_u16_dec, rfind_char,
};

verus! {

/// The scheme of a URL and what follows it. A scheme is a known protocol
/// name ending in the first `':'`, standing before the first `'/'`; any
/// other prefix leaves the input unconsumed and defaults to HTTP.
pub open spec fn scheme_split(s: Seq<char>) -> (Protocol, Seq<char>) {
    let fc = first_occ(s, ':');
    let fs = first_occ(s, '/');
    if fc < fs {
        match spec_protocol_of(s.take(fc + 1)) {
            Some(p) => (p, s.skip(fc + 1)),
            None => (Protocol::Http, s),
        }
    } else {
        (Protocol::Http, s)
    }
}

/// The remainder with one leading `"//"` skipped, if present.
pub open spec fn after_slashes(s: Seq<char>) -> Seq<char> {
    if s.len() >= 2 && s[0] == '/' && s[1] == '/' {
        s.skip(2)
    } else {
        s
    }
}

/// The authority section: everything before the first `'/'`.
pub open spec fn authority_of(s: Seq<char>) -> Seq<char> {
    s.take(first_occ(s, '/'))
}

/// The path section: from the first `'/'` on, or `"/"` if there is none.
pub open spec fn raw_path_of(s: Seq<char>) -> Seq<char> {
    if first_occ(s, '/') < s.len() {
        s.skip(first_occ(s, '/'))
    } else {
        "/"@
    }
}

/// Whether the authority carries an explicit `":port"` suffix.
pub open spec fn has_explicit_port(auth: Seq<char>) -> bool {
    last_occ(auth, ':') >= 0
}

/// The host part of the authority: up to the last `':'`, or all of it.
pub open spec fn host_of(auth: Seq<char>) -> Seq<char> {
    if has_explicit_port(auth) {
        auth.take(last_occ(auth, ':'))
    } else {
        auth
    }
}

/// The digits after the last `':'` of the authority.
pub open spec fn port_str_of(auth: Seq<char>) -> Seq<char> {
    auth.skip(last_occ(auth, ':') + 1)
}

/// Whether a port string denotes a `u16`.
pub open spec fn valid_port(s: Seq<char>) -> bool {
    s.len() > 0 && all_dec_digits(s) && dec_val(s) <= u16::MAX
}

/// The port a URL resolves to: the explicit one, or the protocol default.
pub open spec fn port_of(proto: Protocol, auth: Seq<char>) -> u16 {
    if has_explicit_port(auth) {
        dec_val(port_str_of(auth)) as u16
    } else {
        proto.spec_port()
    }
}

/// The default file name: the last path segment, or `"index.html"` when
/// the path ends in `'/'` or has no segment.
pub open spec fn filename_of(path: Seq<char>) -> Seq<char> {
    let fl = last_occ(path, '/');
    if fl == -1 {
        "index.html"@
    } else {
        let seg = path.skip(fl + 1);
        if seg.len() == 0 {
            "index.html"@
        } else {
            seg
        }
    }
}

#[derive(Debug)]
pub struct ParsedUrl {
    pub protocol: Protocol,
    pub domain_name: String,
    pub port: u16,
    pub path: String,
    pub filename: String,
}

impl PartialEq for ParsedUrl {
    fn eq(&self, other: &ParsedUrl) -> (r: bool) {
        self.protocol == other.protocol && self.domain_name == other.domain_name && self.port
            == other.port && self.path == other.path && self.filename == other.filename
    }
}

impl vstd::std_specs::cmp::PartialEqSpecImpl for ParsedUrl {
    open spec fn obeys_eq_spec() -> bool {
        true
    }

    open spec fn eq_spec(&self, other: &ParsedUrl) -> bool {
        self.protocol == other.protocol && self.domain_name@ == other.domain_name@ && self.port
            == other.port && self.path@ == other.path@ && self.filename@ == other.filename@
    }
}

impl ParsedUrl {
    /// Decomposes a URL string. The scheme defaults to HTTP without
    /// consuming input when no known `scheme:` prefix stands before the
    /// first `'/'`. An unparsable explicit port, and then an empty host,
    /// are rejected; every other input yields a decomposition.
    pub fn parse(url: &str) -> (r: Result<ParsedUrl, WgetError>)
        ensures
            ({
                let parts = scheme_split(url@);
                let rest = after_slashes(parts.1);
                let auth = authority_of(rest);
                let path = raw_path_of(rest);
                if has_explicit_port(auth) && !valid_port(port_str_of(auth)) {
                    r matches Err(WgetError::ParsingError(_))
                } else if host_of(auth).len() == 0 {
                    r matches Err(WgetError::ParsingError(_))
                } else {
                    r matches Ok(u) && u.protocol == parts.0 && u.domain_name@ == host_of(auth)
                        && u.port == port_of(parts.0, auth) && u.path@ == path && u.filename@
                        == filename_of(path)
                }
            }),
    {
        let len = url.unicode_len();
        let mut protocol: Protocol = Protocol::Http;
        let mut rest: &str = url;
        let colon_before_slash: bool = match (find_char(url, ':'), find_char(url, '/')) {
            (Some(ci), Some(si)) => ci < si,
            (Some(_), None) => true,
            _ => false,
        };
        proof {
            assert(colon_before_slash == (first_occ(url@, ':') < first_occ(url@, '/')));
        }
        if colon_before_slash {
            let ci = match find_char(url, ':') {
                Some(ci) => ci,
                None => 0,  // unreachable: a colon stands before the first slash
            };
            let scheme = url.substring_char(0, ci + 1);
            assert(scheme@ == url@.take(ci + 1));
            match Protocol::from_str(scheme) {
                Ok(p) => {
                    protocol = p;
                    rest = url.substring_char(ci + 1, len);
                },
                Err(_) => {},
            }
        }
        proof {
            assert(protocol == scheme_split(url@).0);
            assert(rest@ == scheme_split(url@).1);
        }
        let ghost remainder = scheme_split(url@).1;

        // Skip one leading "//".
        let rlen = rest.unicode_len();
        if rlen >= 2 && rest.get_char(0) == '/' && rest.get_char(1) == '/' {
            rest = rest.substring_char(2, rlen);
        }
        proof {
            assert(rest@ == after_slashes(remainder));
        }
        let ghost rest_view = rest@;

        // Split the authority from the path at the first '/'.
        let rlen2 = rest.unicode_len();
        let auth: &str;
        let path: String;
        match find_char(rest, '/') {
            Some(k) => {
                auth = rest.substring_char(0, k);
                path = String::from_str(rest.substring_char(k, rlen2));
            },
            None => {
                auth = rest;
                path = String::from_str("/");
            },
        }
        proof {
            assert(auth@ == authority_of(rest_view));
            assert(path@ == raw_path_of(rest_view));
        }

        // Split host from an explicit port at the last ':'.
        let alen = auth.unicode_len();
        let host: &str;
        let port: u16;
        match rfind_char(auth, ':') {
            Some(j) => {
                let port_sub = auth.substring_char(j + 1, alen);
                assert(port_sub@ == port_str_of(auth@));
                match parse_u16_dec(port_sub) {
                    Some(p) => {
                        port = p;
                        host = auth.substring_char(0, j);
                    },
                    None => {
                        let mut msg = String::new();
                        msg.append("Invalid port ");
                        msg.append(port_sub);
                        return Err(WgetError::ParsingError(msg));
                    },
                }
            },
            None => {
                port = protocol.get_port();
                host = auth;
            },
        }
        proof {
            assert(host@ == host_of(auth@));
            assert(port == port_of(protocol, auth@));
        }

        if host.unicode_len() == 0 {
            return Err(WgetError::ParsingError(String::from_str("Empty host")));
        }

        // Derive the default file name from the last path segment.
        let plen = path.as_str().unicode_len();
        let filename: String;
        match rfind_char(path.as_str(), '/') {
            Some(fl) => {
                let seg = path.as_str().substring_char(fl + 1, plen);
                if seg.unicode_len() == 0 {
                    filename = String::from_str("index.html");
                } else {
                    filename = String::from_str(seg);
                }
            },
            None => {
                filename = String::from_str("index.html");
            },
        }
        proof {
            assert(filename@ == filename_of(path@));
        }

        Ok(ParsedUrl { protocol, domain_name: String::from_str(host), port, path, filename })
    }
}

} // verus!
