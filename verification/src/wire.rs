//! A specification-level re-reading of the request wire form, under the
//! same line-splitting rules the response codec uses: a line runs to the
//! first `'\n'`, one trailing `'\r'` is stripped, the request line splits
//! on single spaces, and each header line splits at the first `": "`.
//! The round-trip law at the bottom says that serializing a request and
//! re-reading the bytes this way recovers the method, path, version and
//! headers exactly.

use vstd::prelude::*;

use crate::common::HttpVersion;
use crate::request::{header_block, HttpMethod, HttpRequest};
use crate::text::{first_occ, first_pair};

verus! {

/// No line break inside a token.
pub open spec fn no_nl(s: Seq<char>) -> bool {
    forall|i: int| 0 <= i < s.len() ==> s[i] != '\n'
}

/// No space inside a token.
pub open spec fn no_space(s: Seq<char>) -> bool {
    forall|i: int| 0 <= i < s.len() ==> s[i] != ' '
}

/// A header name must not contain a line break or the `": "` separator;
/// otherwise its line would split at the wrong place.
pub open spec fn name_ok(n: Seq<char>) -> bool {
    no_nl(n) && forall|i: int|
        #![trigger n[i]]
        0 <= i && i + 1 < n.len() ==> !(n[i] == ':' && n[i + 1] == ' ')
}

/// A header value must not contain a line break.
pub open spec fn value_ok(v: Seq<char>) -> bool {
    no_nl(v)
}

/// A request whose tokens survive the wire: the path carries no space and
/// no line break, and every header fits on its line.
pub open spec fn request_wf(req: HttpRequest) -> bool {
    &&& no_space(req.path@)
    &&& no_nl(req.path@)
    &&& forall|i: int|
        0 <= i < req.headers@.len() ==> name_ok(#[trigger] req.headers@[i].0) && value_ok(
            req.headers@[i].1,
        )
}

/// One trailing `'\r'` stripped.
pub open spec fn strip_cr(t: Seq<char>) -> Seq<char> {
    if t.len() > 0 && t[t.len() - 1] == '\r' {
        t.drop_last()
    } else {
        t
    }
}

/// The first line of a stream: up to the first `'\n'`, `'\r'` stripped.
pub open spec fn line_of(s: Seq<char>) -> Seq<char> {
    strip_cr(s.take(first_occ(s, '\n')))
}

/// What follows the first line.
pub open spec fn rest_of(s: Seq<char>) -> Seq<char> {
    s.skip(first_occ(s, '\n') + 1)
}

/// Reads header lines until the empty line; `None` when the input runs out
/// first or a line lacks the `": "` separator.
pub open spec fn parse_headers(s: Seq<char>) -> Option<Seq<(Seq<char>, Seq<char>)>>
    decreases s.len(),
{
    if 0 <= first_occ(s, '\n') < s.len() {
        let l = line_of(s);
        if l.len() == 0 {
            Some(Seq::empty())
        } else if first_pair(l, ':', ' ') < l.len() {
            match parse_headers(rest_of(s)) {
                Some(hs) => Some(
                    seq![
                        (l.take(first_pair(l, ':', ' ')), l.skip(first_pair(l, ':', ' ') + 2)),
                    ] + hs,
                ),
                None => None,
            }
        } else {
            None
        }
    } else {
        None
    }
}

/// Splits a request line on single spaces: method, path, and the version
/// token as the remainder.
pub open spec fn parse_request_line(l: Seq<char>) -> Option<(Seq<char>, Seq<char>, Seq<char>)> {
    let sp1 = first_occ(l, ' ');
    if sp1 < l.len() {
        let rest = l.skip(sp1 + 1);
        let sp2 = first_occ(rest, ' ');
        if sp2 < rest.len() {
            Some((l.take(sp1), rest.take(sp2), rest.skip(sp2 + 1)))
        } else {
            None
        }
    } else {
        None
    }
}

/// Reads a whole request: the request line, then the header block.
pub open spec fn parse_request(s: Seq<char>) -> Option<
    ((Seq<char>, Seq<char>, Seq<char>), Seq<(Seq<char>, Seq<char>)>),
> {
    if 0 <= first_occ(s, '\n') < s.len() {
        match parse_request_line(line_of(s)) {
            Some(parts) => match parse_headers(rest_of(s)) {
                Some(hs) => Some((parts, hs)),
                None => None,
            },
            None => None,
        }
    } else {
        None
    }
}

/// A character absent from a prefix is first found past it.
proof fn lemma_first_occ_concat(a: Seq<char>, b: Seq<char>, c: char)
    requires
        forall|i: int| 0 <= i < a.len() ==> a[i] != c,
    ensures
        first_occ(a + b, c) == a.len() + first_occ(b, c),
    decreases a.len(),
{
    if a.len() == 0 {
        assert(a + b =~= b);
    } else {
        assert((a + b).len() > 0);
        assert((a + b)[0] == a[0]);
        assert((a + b).skip(1) =~= a.skip(1) + b);
        lemma_first_occ_concat(a.skip(1), b, c);
    }
}

/// A two-character pattern absent from a prefix, and not straddling the
/// boundary, is first found past the prefix.
proof fn lemma_first_pair_concat(a: Seq<char>, b: Seq<char>, c1: char, c2: char)
    requires
        forall|i: int| #![trigger a[i]] 0 <= i && i + 1 < a.len() ==> !(a[i] == c1 && a[i + 1] == c2),
        a.len() > 0 && b.len() > 0 ==> !(a[a.len() - 1] == c1 && b[0] == c2),
    ensures
        first_pair(a + b, c1, c2) == a.len() + first_pair(b, c1, c2),
    decreases a.len(),
{
    if a.len() == 0 {
        assert(a + b =~= b);
    } else {
        let s = a + b;
        if s.len() < 2 {
            assert(a.len() == 1 && b.len() == 0);
            assert(first_pair(s, c1, c2) == 1);
            assert(first_pair(b, c1, c2) == 0);
        } else {
            assert(s[0] == a[0]);
            if a.len() > 1 {
                assert(s[1] == a[1]);
                assert(!(s[0] == c1 && s[1] == c2));
            } else {
                assert(b.len() > 0);
                assert(s[1] == b[0]);
                assert(!(s[0] == c1 && s[1] == c2));
            }
            assert(s.skip(1) =~= a.skip(1) + b);
            assert forall|i: int|
                #![trigger a.skip(1)[i]]
                0 <= i && i + 1 < a.skip(1).len() implies !(a.skip(1)[i] == c1 && a.skip(1)[i + 1]
                == c2) by {
                assert(a.skip(1)[i] == a[i + 1]);
                assert(a.skip(1)[i + 1] == a[i + 2]);
            }
            if a.skip(1).len() > 0 && b.len() > 0 {
                assert(a.skip(1)[a.skip(1).len() - 1] == a[a.len() - 1]);
            }
            lemma_first_pair_concat(a.skip(1), b, c1, c2);
        }
    }
}

/// Prepending a line and its `"\r\n"` to a stream: the first line read back
/// is that line, and the rest is the stream.
proof fn lemma_line_decomp(a: Seq<char>, b: Seq<char>)
    requires
        no_nl(a),
    ensures
        0 <= first_occ(a + "\r\n"@ + b, '\n') < (a + "\r\n"@ + b).len(),
        line_of(a + "\r\n"@ + b) == a,
        rest_of(a + "\r\n"@ + b) == b,
{
    reveal_strlit("\r\n");
    let s = a + "\r\n"@ + b;
    let front = a + "\r\n"@.take(1);
    assert(front.len() == a.len() + 1);
    assert forall|i: int| 0 <= i < front.len() implies front[i] != '\n' by {
        if i < a.len() {
            assert(front[i] == a[i]);
        } else {
            assert(front[i] == '\r');
        }
    }
    assert(s =~= front + (Seq::<char>::empty().push('\n') + b));
    lemma_first_occ_concat(front, Seq::<char>::empty().push('\n') + b, '\n');
    assert(first_occ(Seq::<char>::empty().push('\n') + b, '\n') == 0);
    assert(first_occ(s, '\n') == a.len() + 1);
    assert(s.take(a.len() + 1 as int) =~= front);
    assert(front[front.len() - 1] == '\r');
    assert(strip_cr(front) =~= a);
    assert(rest_of(s) =~= b);
}

/// Every method token is free of spaces and line breaks.
pub proof fn lemma_method_token_clean(m: HttpMethod)
    ensures
        no_space(m.spec_str()),
        no_nl(m.spec_str()),
{
    reveal_strlit("GET");
    reveal_strlit("HEAD");
    reveal_strlit("POST");
    reveal_strlit("PUT");
    reveal_strlit("DELETE");
    reveal_strlit("CONNECT");
    reveal_strlit("OPTIONS");
    reveal_strlit("TRACE");
    reveal_strlit("PATCH");
}

/// Every version token is free of spaces and line breaks.
pub proof fn lemma_version_token_clean(v: HttpVersion)
    ensures
        no_space(v.spec_str()),
        no_nl(v.spec_str()),
{
    reveal_strlit("HTTP/0.9");
    reveal_strlit("HTTP/1.0");
    reveal_strlit("HTTP/1.1");
    reveal_strlit("HTTP/2");
}

/// Method tokens tell methods apart: recovering the token recovers the
/// method.
pub proof fn lemma_method_token_injective(m1: HttpMethod, m2: HttpMethod)
    ensures
        m1.spec_str() == m2.spec_str() ==> m1 == m2,
{
    reveal_strlit("GET");
    reveal_strlit("HEAD");
    reveal_strlit("POST");
    reveal_strlit("PUT");
    reveal_strlit("DELETE");
    reveal_strlit("CONNECT");
    reveal_strlit("OPTIONS");
    reveal_strlit("TRACE");
    reveal_strlit("PATCH");
    let s1 = m1.spec_str();
    let s2 = m2.spec_str();
    if s1 == s2 && m1 != m2 {
        // Length and first character discriminate every method token.
        assert(s1.len() == s2.len() && s1[0] == s2[0]);
        assert(match m1 {
            HttpMethod::Get => s1.len() == 3 && s1[0] == 'G',
            HttpMethod::Head => s1.len() == 4 && s1[0] == 'H',
            HttpMethod::Post => s1.len() == 4 && s1[0] == 'P',
            HttpMethod::Put => s1.len() == 3 && s1[0] == 'P',
            HttpMethod::Delete => s1.len() == 6 && s1[0] == 'D',
            HttpMethod::Connect => s1.len() == 7 && s1[0] == 'C',
            HttpMethod::Options => s1.len() == 7 && s1[0] == 'O',
            HttpMethod::Trace => s1.len() == 5 && s1[0] == 'T',
            HttpMethod::Patch => s1.len() == 5 && s1[0] == 'P',
        });
        assert(match m2 {
            HttpMethod::Get => s2.len() == 3 && s2[0] == 'G',
            HttpMethod::Head => s2.len() == 4 && s2[0] == 'H',
            HttpMethod::Post => s2.len() == 4 && s2[0] == 'P',
            HttpMethod::Put => s2.len() == 3 && s2[0] == 'P',
            HttpMethod::Delete => s2.len() == 6 && s2[0] == 'D',
            HttpMethod::Connect => s2.len() == 7 && s2[0] == 'C',
            HttpMethod::Options => s2.len() == 7 && s2[0] == 'O',
            HttpMethod::Trace => s2.len() == 5 && s2[0] == 'T',
            HttpMethod::Patch => s2.len() == 5 && s2[0] == 'P',
        });
        assert(s1[1] == s2[1]);
        assert(match m1 {
            HttpMethod::Post => s1[1] == 'O',
            HttpMethod::Put => s1[1] == 'U',
            HttpMethod::Patch => s1[1] == 'A',
            _ => true,
        });
        assert(match m2 {
            HttpMethod::Post => s2[1] == 'O',
            HttpMethod::Put => s2[1] == 'U',
            HttpMethod::Patch => s2[1] == 'A',
            _ => true,
        });
        assert(false);
    }
}

/// The header block followed by the blank line reads back as exactly the
/// entries it was rendered from.
proof fn lemma_parse_headers_round_trip(entries: Seq<(Seq<char>, Seq<char>)>)
    requires
        forall|i: int|
            0 <= i < entries.len() ==> name_ok(#[trigger] entries[i].0) && value_ok(entries[i].1),
    ensures
        parse_headers(header_block(entries) + "\r\n"@) == Some(entries),
    decreases entries.len(),
{
    reveal_strlit("\r\n");
    reveal_strlit(": ");
    if entries.len() == 0 {
        let s = header_block(entries) + "\r\n"@;
        assert(s =~= Seq::<char>::empty() + "\r\n"@ + Seq::<char>::empty());
        lemma_line_decomp(Seq::<char>::empty(), Seq::<char>::empty());
        assert(parse_headers(s) == Some(Seq::<(Seq<char>, Seq<char>)>::empty()));
        assert(Seq::<(Seq<char>, Seq<char>)>::empty() =~= entries);
    } else {
        let e = entries[0];
        let line = e.0 + ": "@ + e.1;
        let tail = entries.drop_first();
        let b = header_block(tail) + "\r\n"@;
        let s = header_block(entries) + "\r\n"@;
        assert(s =~= line + "\r\n"@ + b);
        assert(no_nl(line)) by {
            assert forall|i: int| 0 <= i < line.len() implies line[i] != '\n' by {
                if i < e.0.len() {
                    assert(line[i] == e.0[i]);
                } else if i < e.0.len() + 2 {
                    assert(line[i] == ": "@[i - e.0.len()]);
                } else {
                    assert(line[i] == e.1[i - e.0.len() - 2]);
                }
            }
        }
        lemma_line_decomp(line, b);
        assert(line.len() > 0);
        // The first ": " of the line stands exactly after the name.
        assert(first_pair(line, ':', ' ') == e.0.len()) by {
            let sep_rest = ": "@ + e.1;
            assert(line =~= e.0 + sep_rest);
            if e.0.len() > 0 && sep_rest.len() > 0 {
                assert(sep_rest[0] == ':');
            }
            lemma_first_pair_concat(e.0, sep_rest, ':', ' ');
            assert(sep_rest[0] == ':' && sep_rest[1] == ' ');
            assert(first_pair(sep_rest, ':', ' ') == 0);
        }
        assert(first_pair(line, ':', ' ') < line.len());
        assert(line.take(first_pair(line, ':', ' ')) =~= e.0);
        assert(line.skip(first_pair(line, ':', ' ') + 2) =~= e.1);
        assert forall|i: int|
            0 <= i < tail.len() implies name_ok(#[trigger] tail[i].0) && value_ok(
            tail[i].1,
        ) by {
            assert(tail[i] == entries[i + 1]);
            assert(entries[i + 1].0 == tail[i].0 && entries[i + 1].1 == tail[i].1);
        }
        lemma_parse_headers_round_trip(tail);
        assert(parse_headers(b) == Some(tail));
        assert(seq![(e.0, e.1)] + tail =~= entries);
        assert(parse_headers(s) == Some(entries));
    }
}

/// Round trip: serializing a request and re-reading its wire form with the
/// codec's line-splitting rules yields the method token, the path, the
/// version token, and the header entries exactly as they were. Together
/// with the token lemmas above, the method and version themselves are
/// recovered, not just their spellings.
pub proof fn lemma_request_round_trip(req: HttpRequest)
    requires
        request_wf(req),
    ensures
        parse_request(req.spec_wire()) == Some(
            ((req.method.spec_str(), req.path@, req.version.spec_str()), req.headers@),
        ),
{
    reveal_strlit(" ");
    reveal_strlit("\r\n");
    let m = req.method.spec_str();
    let p = req.path@;
    let v = req.version.spec_str();
    let request_line = m + " "@ + p + " "@ + v;
    let block = header_block(req.headers@) + "\r\n"@;
    let s = req.spec_wire();
    assert(s =~= request_line + "\r\n"@ + block);
    lemma_method_token_clean(req.method);
    lemma_version_token_clean(req.version);
    assert(no_nl(request_line)) by {
        assert forall|i: int| 0 <= i < request_line.len() implies request_line[i] != '\n' by {
            if i < m.len() {
                assert(request_line[i] == m[i]);
            } else if i < m.len() + 1 {
                assert(request_line[i] == ' ');
            } else if i < m.len() + 1 + p.len() {
                assert(request_line[i] == p[i - m.len() - 1]);
            } else if i < m.len() + 2 + p.len() {
                assert(request_line[i] == ' ');
            } else {
                assert(request_line[i] == v[i - m.len() - 2 - p.len()]);
            }
        }
    }
    lemma_line_decomp(request_line, block);
    assert(line_of(s) == request_line);
    assert(rest_of(s) == block);
    // Split the request line at its two separating spaces.
    let after_method = " "@ + p + " "@ + v;
    assert(request_line =~= m + after_method);
    lemma_first_occ_concat(m, after_method, ' ');
    assert(after_method[0] == ' ');
    assert(first_occ(after_method, ' ') == 0);
    assert(first_occ(request_line, ' ') == m.len());
    assert(first_occ(request_line, ' ') < request_line.len());
    assert(request_line.take(m.len() as int) =~= m);
    let rest1 = request_line.skip(m.len() + 1 as int);
    assert(rest1 =~= p + (" "@ + v));
    lemma_first_occ_concat(p, " "@ + v, ' ');
    assert((" "@ + v)[0] == ' ');
    assert(first_occ(" "@ + v, ' ') == 0);
    assert(first_occ(rest1, ' ') == p.len());
    assert(first_occ(rest1, ' ') < rest1.len());
    assert(rest1.take(p.len() as int) =~= p);
    assert(rest1.skip(p.len() + 1 as int) =~= v);
    assert(parse_request_line(request_line) == Some((m, p, v)));
    lemma_parse_headers_round_trip(req.headers@);
    assert(parse_headers(block) == Some(req.headers@));
}

} // verus!
