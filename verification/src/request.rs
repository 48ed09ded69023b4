//! The request side of the codec: building a request and rendering its wire
//! form, `"<METHOD> <path> <VERSION>\r\n"`, one `"<name>: <value>\r\n"` line
//! per header in insertion order, then a blank line.

use vstd::prelude::*;

use crate::common::HttpVersion;
use crate::headers::{spec_add, spec_get, spec_remove, Headers};
use crate::text::{lower, lower_char};
use vstd::utf8::encode_utf8;

verus! {

#[derive(Debug, Clone, Copy, PartialEq, Eq, Structural)]
pub enum HttpMethod {
    Get,
    Head,
    Post,
    Put,
    Delete,
    Connect,
    Options,
    Trace,
    Patch,
}

impl HttpMethod {
    /// The wire token of each method.
    pub open spec fn spec_str(self) -> Seq<char> {
        match self {
            HttpMethod::Get => "GET"@,
            HttpMethod::Head => "HEAD"@,
            HttpMethod::Post => "POST"@,
            HttpMethod::Put => "PUT"@,
            HttpMethod::Delete => "DELETE"@,
            HttpMethod::Connect => "CONNECT"@,
            HttpMethod::Options => "OPTIONS"@,
            HttpMethod::Trace => "TRACE"@,
            HttpMethod::Patch => "PATCH"@,
        }
    }

    pub fn as_str(&self) -> (r: &'static str)
        ensures
            r@ == self.spec_str(),
    {
        match self {
            HttpMethod::Get => "GET",
            HttpMethod::Head => "HEAD",
            HttpMethod::Post => "POST",
            HttpMethod::Put => "PUT",
            HttpMethod::Delete => "DELETE",
            HttpMethod::Connect => "CONNECT",
            HttpMethod::Options => "OPTIONS",
            HttpMethod::Trace => "TRACE",
            HttpMethod::Patch => "PATCH",
        }
    }
}

/// The header lines of a wire message: `"<name>: <value>\r\n"` per entry,
/// in order.
pub open spec fn header_block(entries: Seq<(Seq<char>, Seq<char>)>) -> Seq<char>
    decreases entries.len(),
{
    if entries.len() == 0 {
        Seq::empty()
    } else {
        entries[0].0 + ": "@ + entries[0].1 + "\r\n"@ + header_block(entries.drop_first())
    }
}

/// One header line appended at the end extends the block at its end.
pub proof fn lemma_header_block_push(entries: Seq<(Seq<char>, Seq<char>)>, e: (Seq<char>, Seq<char>))
    ensures
        header_block(entries.push(e)) == header_block(entries) + (e.0 + ": "@ + e.1 + "\r\n"@),
    decreases entries.len(),
{
    if entries.len() == 0 {
        assert(entries.push(e).drop_first() =~= entries);
        assert(header_block(entries.push(e)) =~= header_block(entries) + (e.0 + ": "@ + e.1
            + "\r\n"@));
    } else {
        lemma_header_block_push(entries.drop_first(), e);
        assert(entries.push(e).drop_first() =~= entries.drop_first().push(e));
        assert(header_block(entries.push(e)) =~= header_block(entries) + (e.0 + ": "@ + e.1
            + "\r\n"@));
    }
}

pub struct HttpRequest {
    pub method: HttpMethod,
    pub path: String,
    pub version: HttpVersion,
    pub headers: Headers,
}

impl HttpRequest {
    /// The full wire form of the request.
    pub open spec fn spec_wire(&self) -> Seq<char> {
        self.method.spec_str() + " "@ + self.path@ + " "@ + self.version.spec_str() + "\r\n"@
            + header_block(self.headers@) + "\r\n"@
    }

    pub fn new(method: HttpMethod, path: String, version: HttpVersion) -> (r: HttpRequest)
        ensures
            r.method == method,
            r.path == path,
            r.version == version,
            r.headers@ == Seq::<(Seq<char>, Seq<char>)>::empty(),
            r.headers.wf(),
    {
        HttpRequest { method, path, version, headers: Headers::new() }
    }

    pub fn add_header(&mut self, name: String, value: String)
        requires
            old(self).headers.wf(),
        ensures
            final(self).headers@ == spec_add(old(self).headers@, name@, value@),
            final(self).headers.wf(),
            final(self).method == old(self).method,
            final(self).path == old(self).path,
            final(self).version == old(self).version,
    {
        self.headers.add(name, value);
    }

    pub fn get_header(&self, name: &str) -> (r: Option<String>)
        requires
            self.headers.wf(),
        ensures
            match r {
                Some(v) => spec_get(self.headers@, name@) == Some(v@),
                None => spec_get(self.headers@, name@) is None,
            },
    {
        self.headers.get(name)
    }

    pub fn delete_header(&mut self, name: &str) -> (r: Option<String>)
        requires
            old(self).headers.wf(),
        ensures
            final(self).headers@ == spec_remove(old(self).headers@, name@),
            match r {
                Some(v) => spec_get(old(self).headers@, name@) == Some(v@),
                None => spec_get(old(self).headers@, name@) is None,
            },
            final(self).headers.wf(),
            final(self).method == old(self).method,
            final(self).path == old(self).path,
            final(self).version == old(self).version,
    {
        self.headers.remove(name)
    }

    /// The wire form as a string.
    pub fn wire_string(&self) -> (r: String)
        ensures
            r@ == self.spec_wire(),
    {
        let mut s = String::new();
        s.append(self.method.as_str());
        s.append(" ");
        s.append(self.path.as_str());
        s.append(" ");
        s.append(self.version.as_str());
        s.append("\r\n");
        let ghost first_line = self.method.spec_str() + " "@ + self.path@ + " "@
            + self.version.spec_str() + "\r\n"@;
        let n = self.headers.len();
        let mut i: usize = 0;
        while i < n
            invariant
                n == self.headers@.len(),
                i <= n,
                s@ == first_line + header_block(self.headers@.take(i as int)),
            decreases n - i,
        {
            let (name, value) = self.headers.entry_at(i);
            s.append(name.as_str());
            s.append(": ");
            s.append(value.as_str());
            s.append("\r\n");
            proof {
                let ghost e = self.headers@[i as int];
                lemma_header_block_push(self.headers@.take(i as int), e);
                assert(self.headers@.take(i as int).push(e) =~= self.headers@.take(i as int + 1));
                assert(s@ =~= first_line + header_block(self.headers@.take(i as int + 1)));
            }
            i += 1;
        }
        s.append("\r\n");
        proof {
            assert(self.headers@.take(n as int) =~= self.headers@);
            assert(s@ =~= self.spec_wire());
        }
        s
    }

    /// The wire form as bytes, ready to write to a transport.
    pub fn serialize(&self) -> (r: Vec<u8>)
        ensures
            r@ == encode_utf8(self.spec_wire()),
    {
        let s = self.wire_string();
        s.as_str().as_bytes_vec()
    }
}

/// The request every fetch sends: a GET for `path` over HTTP/1.1 with the
/// five fixed outbound headers. `Accept-Encoding: identity` is mandatory
/// because the body decoder performs no content decompression.
pub fn build_get_request(host: &str, path: &str) -> (r: HttpRequest)
    ensures
        r.method == HttpMethod::Get,
        r.version == HttpVersion::Version1_1,
        r.path@ == path@,
        r.headers@ =~= seq![
            ("Host"@, host@),
            ("User-Agent"@, "Wget/1.21.3"@),
            ("Accept"@, "*/*"@),
            ("Accept-Encoding"@, "identity"@),
            ("Connection"@, "Keep-Alive"@),
        ],
        r.headers.wf(),
{
    let mut request = HttpRequest::new(HttpMethod::Get, String::from_str(path),
        HttpVersion::Version1_1);
    proof {
        reveal_strlit("Host");
        reveal_strlit("User-Agent");
        reveal_strlit("Accept");
        reveal_strlit("Accept-Encoding");
        reveal_strlit("Connection");
        assert(lower("Host"@).len() == 4);
        assert(lower("User-Agent"@).len() == 10);
        assert(lower("Accept"@).len() == 6);
        assert(lower("Accept-Encoding"@).len() == 15);
        assert(lower("Connection"@).len() == 10);
        assert(lower("User-Agent"@)[0] != lower("Connection"@)[0]) by {
            assert(lower("User-Agent"@)[0] == lower_char('U'));
            assert(lower("Connection"@)[0] == lower_char('C'));
        }
    }
    request.add_header(String::from_str("Host"), String::from_str(host));
    proof {
        assert(request.headers@ =~= seq![("Host"@, host@)]);
    }
    request.add_header(String::from_str("User-Agent"), String::from_str("Wget/1.21.3"));
    proof {
        assert(request.headers@ =~= seq![("Host"@, host@), ("User-Agent"@, "Wget/1.21.3"@)]);
    }
    request.add_header(String::from_str("Accept"), String::from_str("*/*"));
    proof {
        assert(request.headers@ =~= seq![
            ("Host"@, host@),
            ("User-Agent"@, "Wget/1.21.3"@),
            ("Accept"@, "*/*"@),
        ]);
    }
    request.add_header(String::from_str("Accept-Encoding"), String::from_str("identity"));
    proof {
        assert(request.headers@ =~= seq![
            ("Host"@, host@),
            ("User-Agent"@, "Wget/1.21.3"@),
            ("Accept"@, "*/*"@),
            ("Accept-Encoding"@, "identity"@),
        ]);
    }
    request.add_header(String::from_str("Connection"), String::from_str("Keep-Alive"));
    request
}

} // verus!
