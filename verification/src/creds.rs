//! Credential extraction: read a userid/secret pair out of a Basic
//! `Authorization` header.
//!
//! An absent header or a foreign scheme yields no credentials; a Basic
//! header whose token cannot be decoded to `userid:secret` text is a
//! malformed request.

use vstd::prelude::*;
use vstd::utf8::{decode_utf8, encode_utf8, valid_utf8};
use crate::text::{
    views_of, has_prefix, tokens_spec, first_index_of, split_ws, starts_with, subvec, find_byte,
    bytes_eq,
};

verus! {

/// A userid/secret pair presented by a request.
pub struct Credentials {
    pub userid: String,
    pub secret: String,
}

/// What the decoded bytes of a standard-base64 token are: the decoder's
/// result depends on the token alone, and this names it.
pub uninterp spec fn b64_decode_of(token: Seq<u8>) -> Seq<u8>;

/// Whether a token is valid standard-alphabet base64, so that decoding
/// it succeeds: like the decoding itself, a function of the token
/// alone, and this names it.
pub uninterp spec fn b64_valid(token: Seq<u8>) -> bool;

/// Relies on base64's `BASE64_STANDARD.decode`: decoding with the
/// standard alphabet and padding is a function of the token alone, and
/// fails exactly on tokens that are not valid base64.
#[verifier::external_body]
fn base64_decode(token: &[u8]) -> (r: Option<Vec<u8>>)
    ensures
        r is Some <==> b64_valid(token@),
        r matches Some(v) ==> v@ == b64_decode_of(token@),
{
    match base64::Engine::decode(&base64::engine::general_purpose::STANDARD, token) {
        Ok(v) => Some(v),
        Err(_) => None,
    }
}

/// Relies on `String::from_utf8`: it succeeds exactly on bytes that
/// are valid UTF-8, and then returns the character sequence they
/// encode, whose encoding is the input bytes again.
#[verifier::external_body]
pub fn utf8_string(bytes: Vec<u8>) -> (r: Option<String>)
    ensures
        r is Some <==> valid_utf8(bytes@),
        r matches Some(s) ==> s@ == decode_utf8(bytes@) && encode_utf8(s@) == bytes@,
{
    match String::from_utf8(bytes) {
        Ok(s) => Some(s),
        Err(_) => None,
    }
}

/// How credential extraction can end.
pub enum CredExtract {
    /// No `Authorization` header, or a scheme other than `Basic`: the
    /// request simply carries no credentials.
    Missing,
    /// A `Basic` header whose token does not decode to `userid:secret`
    /// text: the request is malformed.
    Malformed,
    /// The pair the header carries.
    Found(Credentials),
}

/// The first header line opening with `Authorization`, if any.
pub open spec fn auth_header_spec(headers: Seq<Seq<u8>>) -> Option<Seq<u8>>
    decreases headers.len(),
{
    if headers.len() == 0 {
        None
    } else if has_prefix(headers[0], encode_utf8("Authorization"@)) {
        Some(headers[0])
    } else {
        auth_header_spec(headers.skip(1))
    }
}

impl Credentials {
    /// The pair written in decoded credential text: what stands before
    /// the first colon is the userid, everything after it the secret.
    pub open spec fn matches_decoded(self, decoded: Seq<u8>) -> bool {
        match first_index_of(decoded, 58) {
            Some(i) => encode_utf8(self.userid@) == decoded.subrange(0, i) && encode_utf8(
                self.secret@,
            ) == decoded.skip(i + 1),
            None => false,
        }
    }
}

/// Whether the headers carry a decodable Basic pair: an
/// `Authorization` header with a colon, the `Basic` scheme, a token
/// that is valid base64, decoding to text with a colon whose two
/// halves are valid UTF-8.  Exactly then extraction finds credentials.
pub open spec fn extraction_finds(headers: Seq<Seq<u8>>) -> bool {
    match auth_header_spec(headers) {
        None => false,
        Some(line) => match first_index_of(line, 58) {
            None => false,
            Some(ci) => {
                let toks = tokens_spec(line.skip(ci + 1));
                if toks.len() >= 2 && toks[0] == encode_utf8("Basic"@) && b64_valid(toks[1]) {
                    let d = b64_decode_of(toks[1]);
                    match first_index_of(d, 58) {
                        None => false,
                        Some(di) => valid_utf8(d.subrange(0, di)) && valid_utf8(d.skip(di + 1)),
                    }
                } else {
                    false
                }
            },
        },
    }
}

/// What extraction must yield, pinned in every branch: `Missing` when
/// no header or no `Basic` scheme is there, `Malformed` when a Basic
/// header does not decode to `userid:secret` text, and otherwise the
/// pair itself, each half the decoding of its half of the decoded
/// bytes.
pub open spec fn extract_outcome_ok(r: CredExtract, headers: Seq<Seq<u8>>) -> bool {
    match auth_header_spec(headers) {
        None => r is Missing,
        Some(line) => match first_index_of(line, 58) {
            None => r is Malformed,
            Some(ci) => {
                let toks = tokens_spec(line.skip(ci + 1));
                if toks.len() == 0 || toks[0] != encode_utf8("Basic"@) {
                    r is Missing
                } else if toks.len() == 1 || !b64_valid(toks[1]) {
                    r is Malformed
                } else {
                    let d = b64_decode_of(toks[1]);
                    match first_index_of(d, 58) {
                        None => r is Malformed,
                        Some(di) => {
                            if valid_utf8(d.subrange(0, di)) && valid_utf8(d.skip(di + 1)) {
                                r matches CredExtract::Found(c) && c.userid@ == decode_utf8(
                                    d.subrange(0, di),
                                ) && c.secret@ == decode_utf8(d.skip(di + 1))
                                    && c.matches_decoded(d)
                            } else {
                                r is Malformed
                            }
                        },
                    }
                }
            },
        },
    }
}

/// Read the credentials out of the trimmed header lines.
pub fn extract_credentials(headers: &Vec<Vec<u8>>) -> (r: CredExtract)
    ensures
        extract_outcome_ok(r, views_of(headers@)),
{
    let ghost hviews = views_of(headers@);
    let mut i: usize = 0;
    proof {
        assert(hviews.skip(0) == hviews);
    }
    while i < headers.len()
        invariant
            0 <= i <= headers@.len(),
            hviews == views_of(headers@),
            auth_header_spec(hviews) == auth_header_spec(hviews.skip(i as int)),
        decreases headers@.len() - i,
    {
        let pref = "Authorization".as_bytes();
        proof {
            assert(hviews.len() == headers@.len());
            assert(hviews[i as int] == headers@[i as int]@);
            assert(hviews.skip(i as int).len() > 0);
            assert(hviews.skip(i as int)[0] == hviews[i as int]);
            assert(hviews.skip(i as int).skip(1) =~= hviews.skip(i + 1));
            assert(pref@ == encode_utf8("Authorization"@));
        }
        if starts_with(headers[i].as_slice(), pref) {
            proof {
                assert(has_prefix(hviews.skip(i as int)[0], encode_utf8("Authorization"@)));
                assert(auth_header_spec(hviews.skip(i as int)) == Some(hviews[i as int]));
            }
            return extract_from_line(headers[i].as_slice(), Ghost(hviews));
        }
        proof {
            assert(!has_prefix(hviews.skip(i as int)[0], encode_utf8("Authorization"@)));
            assert(auth_header_spec(hviews.skip(i as int)) == auth_header_spec(
                hviews.skip(i as int).skip(1),
            ));
        }
        i = i + 1;
    }
    proof {
        assert(hviews.skip(i as int) =~= Seq::<Seq<u8>>::empty());
    }
    CredExtract::Missing
}

/// Analyse the one `Authorization` line that was found.
fn extract_from_line(line: &[u8], Ghost(hviews): Ghost<Seq<Seq<u8>>>) -> (r: CredExtract)
    requires
        auth_header_spec(hviews) == Some(line@),
    ensures
        extract_outcome_ok(r, hviews),
{
    let ci = match find_byte(line, 58) {
        Some(ci) => ci,
        None => {
            return CredExtract::Malformed;
        },
    };
    let n = line.len();
    let value = subvec(line, ci + 1, n);
    proof {
        assert(value@ =~= line@.skip(ci + 1));
    }
    let toks = split_ws(value.as_slice());
    if toks.len() == 0 {
        return CredExtract::Missing;
    }
    proof {
        assert(toks@.map_values(|v: Vec<u8>| v@)[0] == toks@[0]@);
    }
    if !bytes_eq(toks[0].as_slice(), "Basic".as_bytes()) {
        return CredExtract::Missing;
    }
    if toks.len() == 1 {
        return CredExtract::Malformed;
    }
    proof {
        assert(toks@.map_values(|v: Vec<u8>| v@)[1] == toks@[1]@);
    }
    let decoded = match base64_decode(toks[1].as_slice()) {
        Some(d) => d,
        None => {
            return CredExtract::Malformed;
        },
    };
    let di = match find_byte(decoded.as_slice(), 58) {
        Some(di) => di,
        None => {
            return CredExtract::Malformed;
        },
    };
    let dn = decoded.len();
    let user_part = subvec(decoded.as_slice(), 0, di);
    let secret_part = subvec(decoded.as_slice(), di + 1, dn);
    proof {
        assert(secret_part@ =~= decoded@.skip(di + 1));
    }
    let userid = match utf8_string(user_part) {
        Some(u) => u,
        None => {
            return CredExtract::Malformed;
        },
    };
    let secret = match utf8_string(secret_part) {
        Some(s) => s,
        None => {
            return CredExtract::Malformed;
        },
    };
    CredExtract::Found(Credentials { userid, secret })
}

} // verus!
