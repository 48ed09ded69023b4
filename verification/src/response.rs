//! The response side of the codec: the structured response, and the state
//! machine that parses one from a stream of lines and byte runs.
//!
//! The parser never reads a transport itself. A driver asks `next_action`
//! what to read — a line, or an exact number of bytes — performs the read,
//! and feeds the result back in. Every decision the codec makes (status-line
//! splitting, header framing, body framing by `Content-Length` or chunked
//! transfer) happens here, verified.

use vstd::prelude::*;

use crate::common::{spec_version_of, HttpVersion};
use crate::error::WgetError;
use crate::headers::{spec_add, spec_get, spec_remove, Headers};
use crate::request::{header_block, lemma_header_block_push};
use crate::status::{family_of, spec_status_of, HttpStatusCode, HttpStatusFamily};
use crate::text::{
    all_dec_digits, all_hex_digits, dec_chars, dec_val, find_char, find_pair, first_occ,
    first_pair, hex_val, parse_usize_dec, strip_line, strip_line_ending, str_eq,
};
use vstd::utf8::encode_utf8;

verus! {

pub struct HttpResponse {
    pub version: HttpVersion,
    pub status_code: HttpStatusCode,
    pub status_message: String,
    pub headers: Headers,
    pub data: Vec<u8>,
}

impl HttpResponse {
    pub fn new(version: HttpVersion, status_code: HttpStatusCode, status_message: String) -> (r:
        HttpResponse)
        ensures
            r.version == version,
            r.status_code == status_code,
            r.status_message == status_message,
            r.headers@ == Seq::<(Seq<char>, Seq<char>)>::empty(),
            r.headers.wf(),
            r.data@ == Seq::<u8>::empty(),
    {
        let r = HttpResponse {
            version,
            status_code,
            status_message,
            headers: Headers::new(),
            data: Vec::new(),
        };
        proof {
            assert(r.data@ =~= Seq::<u8>::empty());
        }
        r
    }

    /// The family of the response's status code.
    pub fn status_family(&self) -> (r: HttpStatusFamily)
        ensures
            r == family_of(self.status_code.spec_code()),
    {
        self.status_code.family()
    }

    pub fn add_header(&mut self, name: String, value: String)
        requires
            old(self).headers.wf(),
        ensures
            final(self).headers@ == spec_add(old(self).headers@, name@, value@),
            final(self).headers.wf(),
            final(self).version == old(self).version,
            final(self).status_code == old(self).status_code,
            final(self).status_message == old(self).status_message,
            final(self).data == old(self).data,
    {
        self.headers.add(name, value);
    }

    pub fn get_header(&self, name: &str) -> (r: Option<String>)
        requires
            self.headers.wf(),
        ensures
            match r {
                Some(v) => spec_get(self.headers@, name@) == Some(v@),
                None => spec_get(self.headers@, name@) is None,
            },
    {
        self.headers.get(name)
    }

    pub fn delete_header(&mut self, name: &str) -> (r: Option<String>)
        requires
            old(self).headers.wf(),
        ensures
            final(self).headers@ == spec_remove(old(self).headers@, name@),
            match r {
                Some(v) => spec_get(old(self).headers@, name@) == Some(v@),
                None => spec_get(old(self).headers@, name@) is None,
            },
            final(self).headers.wf(),
            final(self).version == old(self).version,
            final(self).status_code == old(self).status_code,
            final(self).status_message == old(self).status_message,
            final(self).data == old(self).data,
    {
        self.headers.remove(name)
    }

    pub fn set_data(&mut self, data: Vec<u8>)
        ensures
            final(self).data == data,
            final(self).version == old(self).version,
            final(self).status_code == old(self).status_code,
            final(self).status_message == old(self).status_message,
            final(self).headers == old(self).headers,
    {
        self.data = data;
    }

    pub fn get_data(&self) -> (r: &Vec<u8>)
        ensures
            r@ == self.data@,
    {
        &self.data
    }

    /// The head of the wire form: status line, header lines, blank line.
    pub open spec fn spec_head(&self) -> Seq<char> {
        self.version.spec_str() + " "@ + dec_chars(self.status_code.spec_code() as nat) + " "@
            + self.status_message@ + "\r\n"@ + header_block(self.headers@) + "\r\n"@
    }

    /// The response rendered back to bytes, for diagnostic display: the head
    /// followed by the body bytes.
    pub fn serialize(&self) -> (r: Vec<u8>)
        requires
            self.headers.wf(),
        ensures
            r@ == encode_utf8(self.spec_head()) + self.data@,
    {
        let mut s = String::new();
        s.append(self.version.as_str());
        s.append(" ");
        s.append(self.status_code.code_string().as_str());
        s.append(" ");
        s.append(self.status_message.as_str());
        s.append("\r\n");
        let ghost first_line = self.version.spec_str() + " "@ + dec_chars(
            self.status_code.spec_code() as nat,
        ) + " "@ + self.status_message@ + "\r\n"@;
        let n = self.headers.len();
        let mut i: usize = 0;
        while i < n
            invariant
                n == self.headers@.len(),
                i <= n,
                s@ == first_line + header_block(self.headers@.take(i as int)),
            decreases n - i,
        {
            let (name, value) = self.headers.entry_at(i);
            s.append(name.as_str());
            s.append(": ");
            s.append(value.as_str());
            s.append("\r\n");
            proof {
                let ghost e = self.headers@[i as int];
                lemma_header_block_push(self.headers@.take(i as int), e);
                assert(self.headers@.take(i as int).push(e) =~= self.headers@.take(i as int + 1));
                assert(s@ =~= first_line + header_block(self.headers@.take(i as int + 1)));
            }
            i += 1;
        }
        s.append("\r\n");
        proof {
            assert(self.headers@.take(n as int) =~= self.headers@);
            assert(s@ =~= self.spec_head());
        }
        let mut out = s.as_str().as_bytes_vec();
        out.extend_from_slice(self.data.as_slice());
        out
    }
}

/// What the driver must read next and hand to the parser.
#[derive(Debug, Clone, Copy, PartialEq, Eq, Structural)]
pub enum ReadAction {
    ReadLine,
    ReadBytes(usize),
    Finished,
}

/// Where the parser stands: the states are strictly sequential, with no
/// backtracking. `Body(n)` awaits a length-delimited body of `n` bytes;
/// the three chunk states loop until a zero-sized chunk arrives.
#[derive(Debug, Clone, Copy, PartialEq, Eq, Structural)]
pub enum ParsePhase {
    StatusLine,
    HeaderLines,
    Body(usize),
    ChunkSize,
    ChunkData(usize),
    ChunkTerm,
    Complete,
    Failed,
}

/// The version token of a status line: up to the first space.
pub open spec fn version_token(l: Seq<char>) -> Seq<char> {
    l.take(first_occ(l, ' '))
}

/// The status-code token: between the first and second space.
pub open spec fn code_token(l: Seq<char>) -> Seq<char> {
    let rest = l.skip(first_occ(l, ' ') + 1);
    rest.take(first_occ(rest, ' '))
}

/// The status message: everything after the second space, or empty.
pub open spec fn message_of(l: Seq<char>) -> Seq<char> {
    let rest = l.skip(first_occ(l, ' ') + 1);
    if first_occ(rest, ' ') < rest.len() {
        rest.skip(first_occ(rest, ' ') + 1)
    } else {
        Seq::empty()
    }
}

/// Whether a status-code token denotes a `u16`.
pub open spec fn valid_code_token(t: Seq<char>) -> bool {
    t.len() > 0 && all_dec_digits(t) && dec_val(t) <= u16::MAX
}

/// Whether a `Content-Length` value denotes a `usize`.
pub open spec fn valid_content_length(v: Seq<char>) -> bool {
    v.len() > 0 && all_dec_digits(v) && dec_val(v) <= usize::MAX
}

/// Whether a chunk-size line denotes a `usize` (hexadecimal, no extensions).
pub open spec fn valid_chunk_size(l: Seq<char>) -> bool {
    l.len() > 0 && all_hex_digits(l) && hex_val(l) <= usize::MAX
}

/// The response parser. Feed it lines and byte runs as `next_action` asks;
/// once `Complete`, `take_response` hands the structured response out.
pub struct ResponseParser {
    pub phase: ParsePhase,
    pub version: Option<HttpVersion>,
    pub status_code: Option<HttpStatusCode>,
    pub status_message: String,
    pub headers: Headers,
    pub data: Vec<u8>,
    /// Whether the body arrives by chunked transfer encoding.
    pub chunked: bool,
    /// The chunk payloads fed so far, oldest first.
    pub chunks: Ghost<Seq<Seq<u8>>>,
}

impl ResponseParser {
    /// The parser's invariant. Once the status line is consumed the version
    /// and code are known, and in chunked mode the assembled body is always
    /// exactly the concatenation of the chunk payloads fed so far.
    pub open spec fn wf(&self) -> bool {
        &&& self.headers.wf()
        &&& match self.phase {
            ParsePhase::StatusLine | ParsePhase::Failed => true,
            _ => self.version is Some && self.status_code is Some,
        }
        &&& (self.chunked ==> self.data@ == self.chunks@.flatten())
        &&& match self.phase {
            ParsePhase::StatusLine | ParsePhase::HeaderLines | ParsePhase::Body(_) => !self.chunked
                && self.data@ == Seq::<u8>::empty() && self.chunks@ == Seq::<Seq<u8>>::empty(),
            ParsePhase::ChunkSize | ParsePhase::ChunkData(_) | ParsePhase::ChunkTerm => self.chunked,
            _ => true,
        }
    }

    pub fn new() -> (r: ResponseParser)
        ensures
            r.phase == ParsePhase::StatusLine,
            r.wf(),
            r.version is None,
            r.status_code is None,
            r.status_message@ == Seq::<char>::empty(),
            r.headers@ == Seq::<(Seq<char>, Seq<char>)>::empty(),
            r.data@ == Seq::<u8>::empty(),
            r.chunked == false,
            r.chunks@ == Seq::<Seq<u8>>::empty(),
    {
        let r = ResponseParser {
            phase: ParsePhase::StatusLine,
            version: None,
            status_code: None,
            status_message: String::new(),
            headers: Headers::new(),
            data: Vec::new(),
            chunked: false,
            chunks: Ghost(Seq::empty()),
        };
        proof {
            assert(r.data@ =~= Seq::<u8>::empty());
        }
        r
    }

    /// What the driver must read next: a line, exactly `n` bytes, or
    /// nothing — the response is complete (or parsing failed) and not one
    /// byte past it belongs to this response.
    pub open spec fn spec_next_action(&self) -> ReadAction {
        match self.phase {
            ParsePhase::StatusLine => ReadAction::ReadLine,
            ParsePhase::HeaderLines => ReadAction::ReadLine,
            ParsePhase::Body(n) => ReadAction::ReadBytes(n),
            ParsePhase::ChunkSize => ReadAction::ReadLine,
            ParsePhase::ChunkData(n) => ReadAction::ReadBytes(n),
            ParsePhase::ChunkTerm => ReadAction::ReadBytes(2),
            ParsePhase::Complete => ReadAction::Finished,
            ParsePhase::Failed => ReadAction::Finished,
        }
    }

    pub fn next_action(&self) -> (r: ReadAction)
        ensures
            r == self.spec_next_action(),
    {
        match self.phase {
            ParsePhase::StatusLine => ReadAction::ReadLine,
            ParsePhase::HeaderLines => ReadAction::ReadLine,
            ParsePhase::Body(n) => ReadAction::ReadBytes(n),
            ParsePhase::ChunkSize => ReadAction::ReadLine,
            ParsePhase::ChunkData(n) => ReadAction::ReadBytes(n),
            ParsePhase::ChunkTerm => ReadAction::ReadBytes(2),
            ParsePhase::Complete => ReadAction::Finished,
            ParsePhase::Failed => ReadAction::Finished,
        }
    }

    pub fn is_complete(&self) -> (r: bool)
        ensures
            r == (self.phase == ParsePhase::Complete),
    {
        match self.phase {
            ParsePhase::Complete => true,
            _ => false,
        }
    }

    /// Feeds one line, as a reader handed it back (the end-of-line marker
    /// is stripped here: at most one `'\n'`, then at most one `'\r'`).
    ///
    /// Awaiting the status line, it is split on single spaces into version
    /// token, numeric code, and the rest as the message. Awaiting headers,
    /// an empty line closes the header section and the body framing is
    /// chosen: `Content-Length` first, else `Transfer-Encoding: chunked`
    /// (exact value match), else the body is empty and parsing completes;
    /// a non-empty line is split at the first `": "` into name and value.
    /// Awaiting a chunk size, the line is hexadecimal; zero ends the body.
    pub fn feed_line(&mut self, line: &str) -> (r: Result<(), WgetError>)
        requires
            old(self).wf(),
            old(self).spec_next_action() == ReadAction::ReadLine,
        ensures
            final(self).wf(),
            r is Err ==> final(self).phase == ParsePhase::Failed && final(self).version == old(self).version && final(self).status_code == old(self).status_code && final(self).status_message == old(self).status_message && final(self).headers == old(self).headers && final(self).data == old(self).data && final(self).chunked == old(self).chunked && final(self).chunks == old(self).chunks,
            r is Ok ==> final(self).data == old(self).data && final(self).chunks == old(self).chunks,
            ({
                let l = strip_line(line@);
                match old(self).phase {
                    ParsePhase::StatusLine => match spec_version_of(version_token(l)) {
                        None => r matches Err(WgetError::ParsingError(_)),
                        Some(v) => if first_occ(l, ' ') == l.len() {
                            r matches Err(WgetError::ParsingError(_))
                        } else if !valid_code_token(code_token(l)) {
                            r matches Err(WgetError::ParsingError(_))
                        } else {
                            match spec_status_of(dec_val(code_token(l)) as u16) {
                                None => r == Err::<(), WgetError>(
                                    WgetError::InvalidStatusCode(dec_val(code_token(l)) as u16),
                                ),
                                Some(c) => r == Ok::<(), WgetError>(()) && final(self).phase
                                    == ParsePhase::HeaderLines && final(self).version == Some(v)
                                    && final(self).status_code == Some(c) && final(self).status_message@ == message_of(l) && final(self).headers == old(self).headers && final(self).chunked == old(self).chunked,
                            }
                        },
                    },
                    ParsePhase::HeaderLines => if l.len() == 0 {
                        match spec_get(old(self).headers@, "Content-Length"@) {
                            Some(v) => if valid_content_length(v) {
                                r == Ok::<(), WgetError>(()) && final(self).phase
                                    == ParsePhase::Body(dec_val(v) as usize) && final(self).headers
                                    == old(self).headers && final(self).version == old(self).version && final(self).status_code == old(self).status_code
                                    && final(self).status_message == old(self).status_message
                                    && final(self).chunked == old(self).chunked
                            } else {
                                r matches Err(WgetError::ParsingError(_))
                            },
                            None => match spec_get(old(self).headers@, "Transfer-Encoding"@) {
                                Some(t) => if t == "chunked"@ {
                                    r == Ok::<(), WgetError>(()) && final(self).phase
                                        == ParsePhase::ChunkSize && final(self).chunked && final(self).headers == old(self).headers && final(self).version == old(self).version && final(self).status_code == old(self).status_code
                                        && final(self).status_message == old(self).status_message
                                } else {
                                    r == Ok::<(), WgetError>(()) && final(self).phase
                                        == ParsePhase::Complete && final(self).headers == old(self).headers && final(self).version == old(self).version && final(self).status_code == old(self).status_code && final(self).status_message == old(self).status_message && final(self).chunked == old(self).chunked
                                },
                                None => r == Ok::<(), WgetError>(()) && final(self).phase
                                    == ParsePhase::Complete && final(self).headers == old(self).headers && final(self).version == old(self).version && final(self).status_code == old(self).status_code && final(self).status_message == old(self).status_message && final(self).chunked
                                    == old(self).chunked,
                            },
                        }
                    } else {
                        if first_pair(l, ':', ' ') < l.len() {
                            r == Ok::<(), WgetError>(()) && final(self).phase
                                == ParsePhase::HeaderLines && final(self).headers@ == spec_add(
                                old(self).headers@,
                                l.take(first_pair(l, ':', ' ')),
                                l.skip(first_pair(l, ':', ' ') + 2),
                            ) && final(self).version == old(self).version && final(self).status_code == old(self).status_code && final(self).status_message
                                == old(self).status_message && final(self).chunked == old(self).chunked
                        } else {
                            r matches Err(WgetError::ParsingError(_))
                        }
                    },
                    ParsePhase::ChunkSize => if valid_chunk_size(l) {
                        if hex_val(l) == 0 {
                            r == Ok::<(), WgetError>(()) && final(self).phase
                                == ParsePhase::Complete && final(self).headers == old(self).headers
                                && final(self).version == old(self).version && final(self).status_code == old(self).status_code && final(self).status_message
                                == old(self).status_message && final(self).chunked == old(self).chunked
                        } else {
                            r == Ok::<(), WgetError>(()) && final(self).phase
                                == ParsePhase::ChunkData(hex_val(l) as usize) && final(self).headers == old(self).headers && final(self).version == old(self).version && final(self).status_code == old(self).status_code && final(self).status_message == old(self).status_message && final(self).chunked
                                == old(self).chunked
                        }
                    } else {
                        r matches Err(WgetError::ParsingError(_))
                    },
                    _ => true,
                }
            }),
    {
        let stripped = strip_line_ending(line);
        let ls = stripped.as_str();
        let llen = ls.unicode_len();
        let ghost l = strip_line(line@);
        match self.phase {
            ParsePhase::StatusLine => {
                let vend = match find_char(ls, ' ') {
                    Some(i) => i,
                    None => llen,
                };
                let vtok = ls.substring_char(0, vend);
                proof {
                    assert(vtok@ =~= version_token(l));
                }
                let version = match HttpVersion::from_str(vtok) {
                    Ok(v) => v,
                    Err(e) => {
                        self.phase = ParsePhase::Failed;
                        return Err(e);
                    },
                };
                let rest = match find_char(ls, ' ') {
                    Some(i) => ls.substring_char(i + 1, llen),
                    None => {
                        self.phase = ParsePhase::Failed;
                        return Err(
                            WgetError::ParsingError(String::from_str("No status code")),
                        );
                    },
                };
                proof {
                    assert(rest@ =~= l.skip(first_occ(l, ' ') + 1));
                }
                let rlen = rest.unicode_len();
                let cend = match find_char(rest, ' ') {
                    Some(i) => i,
                    None => rlen,
                };
                let ctok = rest.substring_char(0, cend);
                proof {
                    assert(ctok@ =~= code_token(l));
                }
                let code = match HttpStatusCode::from_str(ctok) {
                    Ok(c) => c,
                    Err(e) => {
                        self.phase = ParsePhase::Failed;
                        return Err(e);
                    },
                };
                let msg = match find_char(rest, ' ') {
                    Some(i) => String::from_str(rest.substring_char(i + 1, rlen)),
                    None => String::new(),
                };
                proof {
                    assert(msg@ =~= message_of(l));
                }
                self.version = Some(version);
                self.status_code = Some(code);
                self.status_message = msg;
                self.phase = ParsePhase::HeaderLines;
                Ok(())
            },
            ParsePhase::HeaderLines => {
                if llen == 0 {
                    match self.headers.get("Content-Length") {
                        Some(v) => match parse_usize_dec(v.as_str()) {
                            Some(n) => {
                                self.phase = ParsePhase::Body(n);
                                Ok(())
                            },
                            None => {
                                self.phase = ParsePhase::Failed;
                                let mut msg = String::new();
                                msg.append("Invalid content length ");
                                msg.append(v.as_str());
                                Err(WgetError::ParsingError(msg))
                            },
                        },
                        None => match self.headers.get("Transfer-Encoding") {
                            Some(t) => {
                                if str_eq(t.as_str(), "chunked") {
                                    self.chunked = true;
                                    self.phase = ParsePhase::ChunkSize;
                                    proof {
                                        assert(Seq::<Seq<u8>>::empty().flatten()
                                            =~= Seq::<u8>::empty());
                                        assert(self.data@ =~= self.chunks@.flatten());
                                    }
                                    Ok(())
                                } else {
                                    self.phase = ParsePhase::Complete;
                                    Ok(())
                                }
                            },
                            None => {
                                self.phase = ParsePhase::Complete;
                                Ok(())
                            },
                        },
                    }
                } else {
                    match find_pair(ls, ':', ' ') {
                        Some(i) => {
                            let name = String::from_str(ls.substring_char(0, i));
                            let value = String::from_str(ls.substring_char(i + 2, llen));
                            proof {
                                assert(name@ =~= l.take(first_pair(l, ':', ' ')));
                                assert(value@ =~= l.skip(first_pair(l, ':', ' ') + 2));
                            }
                            self.headers.add(name, value);
                            Ok(())
                        },
                        None => {
                            self.phase = ParsePhase::Failed;
                            Err(WgetError::ParsingError(String::from_str("No header value")))
                        },
                    }
                }
            },
            ParsePhase::ChunkSize => {
                match crate::text::parse_usize_hex(ls) {
                    Some(n) => {
                        if n == 0 {
                            self.phase = ParsePhase::Complete;
                        } else {
                            self.phase = ParsePhase::ChunkData(n);
                        }
                        Ok(())
                    },
                    None => {
                        self.phase = ParsePhase::Failed;
                        let mut msg = String::new();
                        msg.append("Invalid chunk length ");
                        msg.append(ls);
                        Err(WgetError::ParsingError(msg))
                    },
                }
            },
            _ => {
                // Unreachable: the precondition allows only line-reading phases.
                Ok(())
            },
        }
    }

    /// Feeds the bytes the parser asked for. A `Content-Length` body is the
    /// bytes fed, exactly, and parsing completes there. A chunk payload is
    /// appended to the body and recorded; a chunk terminator must be exactly
    /// `"\r\n"`, anything else is a terminal error.
    pub fn feed_bytes(&mut self, bytes: Vec<u8>) -> (r: Result<(), WgetError>)
        requires
            old(self).wf(),
            old(self).spec_next_action() matches ReadAction::ReadBytes(n) && bytes@.len() == n,
        ensures
            final(self).wf(),
            final(self).version == old(self).version,
            final(self).status_code == old(self).status_code,
            final(self).status_message == old(self).status_message,
            final(self).headers == old(self).headers,
            final(self).chunked == old(self).chunked,
            r is Err ==> final(self).phase == ParsePhase::Failed && final(self).data == old(self).data && final(self).chunks == old(self).chunks,
            match old(self).phase {
                ParsePhase::Body(n) => r == Ok::<(), WgetError>(()) && final(self).phase
                    == ParsePhase::Complete && final(self).data@ == bytes@ && final(self).chunks
                    == old(self).chunks,
                ParsePhase::ChunkData(n) => r == Ok::<(), WgetError>(()) && final(self).phase
                    == ParsePhase::ChunkTerm && final(self).data@ == old(self).data@ + bytes@
                    && final(self).chunks@ == old(self).chunks@.push(bytes@),
                ParsePhase::ChunkTerm => if bytes@ == seq![13u8, 10u8] {
                    r == Ok::<(), WgetError>(()) && final(self).phase == ParsePhase::ChunkSize
                        && final(self).data == old(self).data && final(self).chunks == old(self).chunks
                } else {
                    r matches Err(WgetError::ParsingError(_))
                },
                _ => true,
            },
    {
        match self.phase {
            ParsePhase::Body(_) => {
                self.data = bytes;
                self.phase = ParsePhase::Complete;
                Ok(())
            },
            ParsePhase::ChunkData(_) => {
                let ghost bview = bytes@;
                let ghost old_chunks = self.chunks@;
                let mut b = bytes;
                self.data.append(&mut b);
                self.chunks = Ghost(old_chunks.push(bview));
                proof {
                    old_chunks.lemma_flatten_push(bview);
                }
                self.phase = ParsePhase::ChunkTerm;
                Ok(())
            },
            ParsePhase::ChunkTerm => {
                if bytes.len() == 2 && bytes[0] == 13 && bytes[1] == 10 {
                    proof {
                        assert(bytes@ =~= seq![13u8, 10u8]);
                    }
                    self.phase = ParsePhase::ChunkSize;
                    Ok(())
                } else {
                    proof {
                        assert(bytes@ != seq![13u8, 10u8]);
                    }
                    self.phase = ParsePhase::Failed;
                    Err(WgetError::ParsingError(String::from_str("Invalid chunk ending")))
                }
            },
            _ => {
                // Unreachable: the precondition allows only byte-reading phases.
                Ok(())
            },
        }
    }

    /// Hands the finished response out.
    pub fn take_response(self) -> (r: HttpResponse)
        requires
            self.wf(),
            self.phase == ParsePhase::Complete,
        ensures
            Some(r.version) == self.version,
            Some(r.status_code) == self.status_code,
            r.status_message == self.status_message,
            r.headers == self.headers,
            r.headers.wf(),
            r.data == self.data,
    {
        let version = match self.version {
            Some(v) => v,
            None => HttpVersion::Version0_9,  // unreachable: wf pins the version once past the status line
        };
        let status_code = match self.status_code {
            Some(c) => c,
            None => HttpStatusCode::OK,  // unreachable likewise
        };
        HttpResponse {
            version,
            status_code,
            status_message: self.status_message,
            headers: self.headers,
            data: self.data,
        }
    }
}

/// Chunked-body reassembly: whenever the body arrives by chunked transfer,
/// the assembled body equals the concatenation of the chunk payloads in the
/// order they were read — exactly the bytes a `Content-Length` transfer of
/// that concatenation delivers into `data`.
pub proof fn lemma_chunked_reassembly(p: ResponseParser)
    requires
        p.wf(),
        p.chunked,
    ensures
        p.data@ == p.chunks@.flatten(),
{
}

} // verus!
