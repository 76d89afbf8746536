//! Request framing: turn the raw header lines read from a connection
//! into a request head, and bind the head to its body bytes.
//!
//! The caller reads lines until a blank one and collects the body bytes;
//! everything that is decided about them is decided here.

use vstd::prelude::*;
use vstd::utf8::encode_utf8;
use crate::text::{
    views_of, trim_spec, tokens_spec, has_prefix, parse_usize_spec, trim, split_ws, starts_with,
    subvec, parse_usize, bytes_eq, copy_bytes,
};

verus! {

/// A parsed request head: the request line's three tokens, the trimmed
/// header lines in arrival order, and the declared content length.
pub struct Head {
    pub method: Vec<u8>,
    pub path: Vec<u8>,
    pub version: Vec<u8>,
    pub headers: Vec<Vec<u8>>,
    pub content_length: usize,
}

/// A whole request: its head and exactly the declared number of body
/// bytes.
pub struct RawRequest {
    pub head: Head,
    pub body: Vec<u8>,
}

/// A line that ends the header block: a bare CRLF or LF.
pub open spec fn is_blank_line_spec(line: Seq<u8>) -> bool {
    line == encode_utf8("\r\n"@) || line == encode_utf8("\n"@)
}

/// Whether a raw line ends the header block.
pub fn is_blank_line(line: &[u8]) -> (r: bool)
    ensures
        r == is_blank_line_spec(line@),
{
    bytes_eq(line, "\r\n".as_bytes()) || bytes_eq(line, "\n".as_bytes())
}

/// The prefix that announces a declared body length.
pub open spec fn cl_prefix() -> Seq<u8> {
    encode_utf8("Content-Length:"@)
}

/// The length declared by one matching header line: the bytes after the
/// colon, trimmed and read as a number; anything unreadable counts as 0.
pub open spec fn cl_of_line(line: Seq<u8>) -> nat {
    match parse_usize_spec(trim_spec(line.skip(cl_prefix().len() as int))) {
        Some(n) => n,
        None => 0,
    }
}

/// The declared content length of a header block: the value of the last
/// line carrying the `Content-Length:` prefix, or 0 when none does.
pub open spec fn declared_len(headers: Seq<Seq<u8>>) -> nat
    decreases headers.len(),
{
    if headers.len() == 0 {
        0
    } else if has_prefix(headers.last(), cl_prefix()) {
        cl_of_line(headers.last())
    } else {
        declared_len(headers.drop_last())
    }
}

/// Whether a header block parses into a head: it must open with a
/// request line of at least three whitespace-separated tokens.
pub open spec fn head_parses(lines: Seq<Seq<u8>>) -> bool {
    lines.len() > 0 && tokens_spec(lines[0]).len() >= 3
}

impl Head {
    /// The head a header block parses to.
    pub open spec fn matches(self, lines: Seq<Seq<u8>>) -> bool {
        &&& head_parses(lines)
        &&& self.method@ == tokens_spec(lines[0])[0]
        &&& self.path@ == tokens_spec(lines[0])[1]
        &&& self.version@ == tokens_spec(lines[0])[2]
        &&& views_of(self.headers@) == lines.map_values(|l: Seq<u8>| trim_spec(l))
        &&& self.content_length as nat == declared_len(
            lines.map_values(|l: Seq<u8>| trim_spec(l)),
        )
    }

    /// Whether this request carries a body: only `POST` does.
    pub open spec fn has_body(self) -> bool {
        self.method@ == encode_utf8("POST"@)
    }

    /// How many body bytes belong to this head.
    pub open spec fn body_len_spec(self) -> nat {
        if self.has_body() {
            self.content_length as nat
        } else {
            0
        }
    }
}

/// Parse the raw header lines of one request.  `None` is a fatal
/// framing failure: no line at all, or a request line of fewer than
/// three tokens.
pub fn parse_head(lines: &Vec<Vec<u8>>) -> (r: Option<Head>)
    ensures
        r is Some <==> head_parses(views_of(lines@)),
        r matches Some(h) ==> h.matches(views_of(lines@)),
{
    if lines.len() == 0 {
        return None;
    }
    let toks = split_ws(lines[0].as_slice());
    if toks.len() < 3 {
        return None;
    }
    let method = copy_bytes(toks[0].as_slice());
    let path = copy_bytes(toks[1].as_slice());
    let version = copy_bytes(toks[2].as_slice());
    proof {
        assert(toks@.map_values(|v: Vec<u8>| v@)[0] == toks@[0]@);
        assert(toks@.map_values(|v: Vec<u8>| v@)[1] == toks@[1]@);
        assert(toks@.map_values(|v: Vec<u8>| v@)[2] == toks@[2]@);
    }
    let mut headers: Vec<Vec<u8>> = Vec::new();
    let mut content_length: usize = 0;
    let mut i: usize = 0;
    let ghost lviews = views_of(lines@);
    proof {
        assert(lviews.subrange(0, 0).map_values(|l: Seq<u8>| trim_spec(l)) =~~= views_of(
            headers@,
        ));
    }
    while i < lines.len()
        invariant
            0 <= i <= lines@.len(),
            lviews == views_of(lines@),
            views_of(headers@) == lviews.subrange(0, i as int).map_values(
                |l: Seq<u8>| trim_spec(l),
            ),
            content_length as nat == declared_len(
                lviews.subrange(0, i as int).map_values(|l: Seq<u8>| trim_spec(l)),
            ),
        decreases lines@.len() - i,
    {
        let t = trim(lines[i].as_slice());
        let pref = "Content-Length:".as_bytes();
        if starts_with(t.as_slice(), pref) {
            let rest = subvec(t.as_slice(), pref.len(), t.len());
            let trimmed = trim(rest.as_slice());
            proof {
                assert(rest@ =~= t@.skip(cl_prefix().len() as int));
            }
            content_length = match parse_usize(trimmed.as_slice()) {
                Some(n) => n,
                None => 0,
            };
        }
        headers.push(t);
        i = i + 1;
        proof {
            let prev = lviews.subrange(0, i - 1).map_values(|l: Seq<u8>| trim_spec(l));
            let now = lviews.subrange(0, i as int).map_values(|l: Seq<u8>| trim_spec(l));
            assert(now =~~= prev.push(trim_spec(lviews[i - 1])));
            assert(views_of(headers@) =~~= now);
            assert(now.drop_last() =~~= prev);
            assert(now.last() == trim_spec(lviews[i - 1]));
        }
    }
    proof {
        assert(lviews.subrange(0, i as int) == lviews);
    }
    Some(Head { method, path, version, headers, content_length })
}

impl RawRequest {
    /// The framing invariant: the body holds exactly the bytes the head
    /// declares for it.
    pub open spec fn wf(self) -> bool {
        self.body@.len() == self.head.body_len_spec()
    }
}

/// How many body bytes the caller must read for this head: the declared
/// length for `POST`, nothing otherwise.
pub fn request_body_len(head: &Head) -> (r: usize)
    ensures
        r as nat == head.body_len_spec(),
{
    if bytes_eq(head.method.as_slice(), "POST".as_bytes()) {
        head.content_length
    } else {
        0
    }
}

/// Bind a head to the body bytes that were read for it.  `None` is a
/// fatal framing failure: the stream did not deliver exactly the
/// declared number of bytes.  When it succeeds, the request's body is
/// those bytes whole — a declared `Content-Length` of n yields a body
/// of exactly n bytes.
pub fn assemble(head: Head, body: Vec<u8>) -> (r: Option<RawRequest>)
    ensures
        r is Some <==> body@.len() == head.body_len_spec(),
        r matches Some(req) ==> req.head == head && req.body@ == body@ && req.wf(),
{
    if body.len() == request_body_len(&head) {
        Some(RawRequest { head, body })
    } else {
        None
    }
}

/// Law: for a request that carries a body, the parsed body has exactly
/// the length the header block declared — a head parsed from lines
/// declaring `Content-Length: n` assembles only with an n-byte body,
/// whatever the bytes hold.
pub proof fn law_declared_body_length(lines: Seq<Seq<u8>>, head: Head, req: RawRequest)
    requires
        head.matches(lines),
        head.has_body(),
        req.head == head,
        req.wf(),
    ensures
        req.body@.len() == declared_len(lines.map_values(|l: Seq<u8>| trim_spec(l))),
{
}

} // verus!
