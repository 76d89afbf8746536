//! HTTP responses as byte vectors: a status line, a `Content-Length`
//! header, a blank line and the body.

use vstd::prelude::*;
use vstd::utf8::encode_utf8;
use crate::text::dec_digits;

verus! {

pub const OK: &'static str = "HTTP/1.1 200 OK";

pub const BAD_REQUEST: &'static str = "HTTP/1.1 400 Bad Request";

pub const UNAUTHORIZED: &'static str = "HTTP/1.1 401 Unauthorized";

pub const NOT_IMPLEMENTED: &'static str = "HTTP/1.1 501 Not Implemented";

/// The full response for a status line and a body: the status line, a
/// `Content-Length` header counting the body's bytes, a blank line, and
/// the body itself.
pub open spec fn response_spec(status: Seq<char>, body: Seq<u8>) -> Seq<u8> {
    encode_utf8(status) + encode_utf8("\r\nContent-Length: "@) + dec_digits(body.len())
        + encode_utf8("\r\n\r\n"@) + body
}

/// Whether `bytes` are a well-formed response: some status line, then
/// the `Content-Length` header, a blank line, and the counted body.
pub open spec fn is_http_response(bytes: Seq<u8>) -> bool {
    exists|status: Seq<char>, body: Seq<u8>| bytes == response_spec(status, body)
}

/// Append the UTF-8 bytes of `s`.
fn push_str_bytes(out: &mut Vec<u8>, s: &str)
    ensures
        final(out)@ == old(out)@ + encode_utf8(s@),
{
    let bs = s.as_bytes();
    let mut i: usize = 0;
    while i < bs.len()
        invariant
            0 <= i <= bs@.len(),
            bs@ == encode_utf8(s@),
            out@ == old(out)@ + bs@.subrange(0, i as int),
        decreases bs@.len() - i,
    {
        out.push(bs[i]);
        i = i + 1;
        proof {
            assert(old(out)@ + bs@.subrange(0, i as int) =~= (old(out)@ + bs@.subrange(
                0,
                i - 1,
            )).push(bs@[i - 1]));
        }
    }
    proof {
        assert(bs@.subrange(0, i as int) == bs@);
    }
}

/// Append raw bytes.
fn push_bytes(out: &mut Vec<u8>, b: &[u8])
    ensures
        final(out)@ == old(out)@ + b@,
{
    let mut i: usize = 0;
    while i < b.len()
        invariant
            0 <= i <= b@.len(),
            out@ == old(out)@ + b@.subrange(0, i as int),
        decreases b@.len() - i,
    {
        out.push(b[i]);
        i = i + 1;
        proof {
            assert(old(out)@ + b@.subrange(0, i as int) =~= (old(out)@ + b@.subrange(
                0,
                i - 1,
            )).push(b@[i - 1]));
        }
    }
    proof {
        assert(b@.subrange(0, i as int) == b@);
    }
}

/// A response carrying `contents` as its body.
pub fn body_response(status_line: &str, contents: &[u8]) -> (r: Vec<u8>)
    ensures
        r@ == response_spec(status_line@, contents@),
        is_http_response(r@),
{
    let mut out: Vec<u8> = Vec::new();
    push_str_bytes(&mut out, status_line);
    push_str_bytes(&mut out, "\r\nContent-Length: ");
    let digits = crate::text::usize_to_dec(contents.len());
    push_bytes(&mut out, digits.as_slice());
    push_str_bytes(&mut out, "\r\n\r\n");
    push_bytes(&mut out, contents);
    proof {
        assert(out@ =~= response_spec(status_line@, contents@));
    }
    out
}

/// A response with an empty body.
pub fn empty_response(status_line: &str) -> (r: Vec<u8>)
    ensures
        r@ == response_spec(status_line@, Seq::<u8>::empty()),
        is_http_response(r@),
{
    let empty: Vec<u8> = Vec::new();
    let r = body_response(status_line, empty.as_slice());
    proof {
        assert(empty@ =~= Seq::<u8>::empty());
    }
    r
}

/// Echo a request body back under a `200 OK` status.
pub fn echo_body(body: &[u8]) -> (r: Vec<u8>)
    ensures
        r@ == response_spec(OK@, body@),
        is_http_response(r@),
{
    body_response(OK, body)
}

} // verus!
