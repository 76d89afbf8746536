//! The route handlers: each one turns the request's data and the
//! store's answers into response bytes.

use vstd::prelude::*;
use vstd::utf8::{decode_utf8, encode_utf8, valid_utf8};
use vstd::string::StringExecFns;
use crate::response::{
    OK, BAD_REQUEST, UNAUTHORIZED, response_spec, is_http_response, empty_response, body_response,
};
use crate::role::{Role, serialize_role};
use crate::store::{StoreError, store_upsert, store_get_hash, store_delete, store_list};
use crate::authn::{Identity, hash_secret, check_credentials};
use crate::creds::{Credentials, utf8_string};
use crate::text::{split_spec, split_all, bytes_eq, copy_bytes};

verus! {

/// Hash the secret and write the row for `userid`.  A hashing failure
/// counts like a store failure: nothing can be written then.
pub fn upsert_user(conn: &sqlite::Connection, userid: &str, secret: &str, role: Role) -> (r:
    Result<(), StoreError>) {
    let hash = match hash_secret(secret) {
        Some(h) => h,
        None => {
            return Err(StoreError);
        },
    };
    let role_text = serialize_role(role);
    store_upsert(conn, userid, hash.as_str(), role_text.as_str())
}

/// The login answer: 200 exactly when the pair verified, 401 exactly
/// when it did not, both with empty bodies.
pub fn login_reply(found: bool) -> (r: Vec<u8>)
    ensures
        found ==> r@ == response_spec(OK@, Seq::<u8>::empty()),
        !found ==> r@ == response_spec(UNAUTHORIZED@, Seq::<u8>::empty()),
{
    if found {
        empty_response(OK)
    } else {
        empty_response(UNAUTHORIZED)
    }
}

/// Answer a login probe: 200 when the pair verifies against the store,
/// 401 otherwise, both with empty bodies.  `login_reply` settles which
/// of the two each verification outcome earns.
pub fn handle_login(conn: &sqlite::Connection, creds: &Credentials) -> (r: Result<
    Vec<u8>,
    StoreError,
>)
    ensures
        r matches Ok(v) ==> v@ == response_spec(OK@, Seq::<u8>::empty()) || v@ == response_spec(
            UNAUTHORIZED@,
            Seq::<u8>::empty(),
        ),
        r matches Ok(v) ==> is_http_response(v@),
{
    match check_credentials(conn, creds) {
        Ok(found) => Ok(login_reply(found.is_some())),
        Err(e) => Err(e),
    }
}

/// The text of one listed row.
pub open spec fn row_text_spec(userid: Seq<char>, hash: Seq<char>) -> Seq<char> {
    "userid: "@ + userid + ", password: "@ + hash
}

/// Render one stored row as its listed text.
fn render_row(userid: &String, hash: &String) -> (r: String)
    ensures
        r@ == row_text_spec(userid@, hash@),
{
    let mut s = String::new();
    s.append("userid: ");
    s.append(userid.as_str());
    s.append(", password: ");
    s.append(hash.as_str());
    proof {
        assert(s@ =~= row_text_spec(userid@, hash@));
    }
    s
}

/// What serde_json renders for an array of strings: a function of the
/// strings alone, and this names it.
pub uninterp spec fn json_string_array(items: Seq<Seq<char>>) -> Seq<char>;

/// Relies on `serde_json::to_string` for `Vec<String>`: the rendering
/// depends on the strings alone, and for a vector of strings it does
/// not fail.
#[verifier::external_body]
fn json_encode_strings(items: &Vec<String>) -> (r: String)
    ensures
        r@ == json_string_array(items@.map_values(|s: String| s@)),
{
    match serde_json::to_string(items) {
        Ok(s) => s,
        Err(_) => String::new(),
    }
}

/// The listing body for a set of stored rows.
pub open spec fn user_list_spec(rows: Seq<(String, String)>) -> Seq<u8> {
    encode_utf8(json_string_array(rows.map_values(|p: (String, String)| row_text_spec(p.0@, p.1@))))
}

/// Render the full user listing for the rows the store returned: a
/// 200 response whose body is the JSON array of the rows' texts.
pub fn render_user_list(rows: &Vec<(String, String)>) -> (r: Vec<u8>)
    ensures
        r@ == response_spec(OK@, user_list_spec(rows@)),
{
    let mut items: Vec<String> = Vec::new();
    let mut i: usize = 0;
    while i < rows.len()
        invariant
            0 <= i <= rows@.len(),
            items@.map_values(|s: String| s@) == rows@.subrange(0, i as int).map_values(
                |p: (String, String)| row_text_spec(p.0@, p.1@),
            ),
        decreases rows@.len() - i,
    {
        let ghost items0 = items@;
        let row = render_row(&rows[i].0, &rows[i].1);
        items.push(row);
        i = i + 1;
        proof {
            let f = |s: String| s@;
            let g = |p: (String, String)| row_text_spec(p.0@, p.1@);
            let prev = rows@.subrange(0, i - 1);
            let now = rows@.subrange(0, i as int);
            assert(items0.map_values(f).len() == items0.len());
            assert(prev.map_values(g).len() == prev.len());
            assert(items0.len() == i - 1);
            assert(items@ == items0.push(row));
            assert(now =~= prev.push(rows@[i - 1]));
            assert forall|k: int| 0 <= k < i implies items@.map_values(f)[k] == now.map_values(
                g,
            )[k] by {
                assert(items@.map_values(f)[k] == f(items@[k]));
                assert(now.map_values(g)[k] == g(now[k]));
                if k < i - 1 {
                    assert(items0.map_values(f)[k] == f(items0[k]));
                    assert(prev.map_values(g)[k] == g(prev[k]));
                }
            }
            assert(items@.map_values(f) =~= now.map_values(g));
        }
    }
    proof {
        assert(rows@.subrange(0, i as int) == rows@);
    }
    let json = json_encode_strings(&items);
    body_response(OK, json.as_str().as_bytes())
}

/// List every stored user for the administrator: 200 with a JSON array
/// of the rows the store answered with.
pub fn list_users(conn: &sqlite::Connection) -> (r: Result<Vec<u8>, StoreError>)
    ensures
        r matches Ok(v) ==> exists|rows: Seq<(String, String)>|
            v@ == response_spec(OK@, user_list_spec(rows)),
        r matches Ok(v) ==> is_http_response(v@),
{
    match store_list(conn) {
        Ok(rows) => {
            let v = render_user_list(&rows);
            proof {
                assert(v@ == response_spec(OK@, user_list_spec(rows@)));
            }
            Ok(v)
        },
        Err(e) => Err(e),
    }
}

/// Reset the caller's own password to the request body, keeping the
/// caller's role.  A body that is not UTF-8 text cannot be a password
/// and is rejected with 400; a UTF-8 body is written, and answered
/// 200, unless the hasher or the store fails.
pub fn handle_user_reset(
    conn: &sqlite::Connection,
    identity: &Identity,
    body: &[u8],
) -> (r: Result<Vec<u8>, StoreError>)
    ensures
        valid_utf8(body@) ==> (r is Err || (r matches Ok(v) && v@ == response_spec(
            OK@,
            Seq::<u8>::empty(),
        ))),
        !valid_utf8(body@) ==> (r matches Ok(v) && v@ == response_spec(
            BAD_REQUEST@,
            encode_utf8("invalid body"@),
        )),
        r matches Ok(v) ==> is_http_response(v@),
{
    let text = match utf8_string(copy_bytes(body)) {
        Some(t) => t,
        None => {
            return Ok(body_response(BAD_REQUEST, "invalid body".as_bytes()));
        },
    };
    match upsert_user(conn, identity.userid.as_str(), text.as_str(), identity.role) {
        Ok(()) => Ok(empty_response(OK)),
        Err(e) => Err(e),
    }
}

/// Whether an upsert body reads as `userid:secret[:role]`: two or
/// three colon-separated parts, the first two valid UTF-8 text.
/// Exactly then parsing yields a triple.
pub open spec fn upsert_body_ok(body: Seq<u8>) -> bool {
    let parts = split_spec(body, 58);
    2 <= parts.len() <= 3 && valid_utf8(parts[0]) && valid_utf8(parts[1])
}

/// Read an upsert body `userid:secret[:role]`.  A part count other
/// than two or three yields nothing, as does a userid or secret that
/// is not UTF-8 text; an unrecognised or absent role part falls back
/// to `USER`, never to `ADMIN`.
pub fn parse_upsert(body: &[u8]) -> (r: Option<(String, String, Role)>)
    ensures
        r is Some <==> upsert_body_ok(body@),
        ({
            let parts = split_spec(body@, 58);
            r matches Some(t) ==> {
                &&& t.0@ == decode_utf8(parts[0])
                &&& t.1@ == decode_utf8(parts[1])
                &&& encode_utf8(t.0@) == parts[0]
                &&& encode_utf8(t.1@) == parts[1]
                &&& t.2 == (if parts.len() == 3 && parts[2] == encode_utf8("ADMIN"@) {
                    Role::ADMIN
                } else {
                    Role::USER
                })
            }
        }),
{
    let parts = split_all(body, 58);
    if parts.len() < 2 || parts.len() > 3 {
        return None;
    }
    proof {
        assert(parts@.map_values(|v: Vec<u8>| v@)[0] == parts@[0]@);
        assert(parts@.map_values(|v: Vec<u8>| v@)[1] == parts@[1]@);
        if parts@.len() == 3 {
            assert(parts@.map_values(|v: Vec<u8>| v@)[2] == parts@[2]@);
        }
    }
    let userid = match utf8_string(copy_bytes(parts[0].as_slice())) {
        Some(u) => u,
        None => {
            return None;
        },
    };
    let secret = match utf8_string(copy_bytes(parts[1].as_slice())) {
        Some(s) => s,
        None => {
            return None;
        },
    };
    let role = if parts.len() == 3 && bytes_eq(parts[2].as_slice(), "ADMIN".as_bytes()) {
        Role::ADMIN
    } else {
        Role::USER
    };
    Some((userid, secret, role))
}

/// Create or update a user from a colon-delimited body: 400 exactly
/// when the body does not read as `userid:secret[:role]`, and
/// otherwise 200 once the row is written, unless the hasher or the
/// store fails.
pub fn handle_user_upsert(conn: &sqlite::Connection, body: &[u8]) -> (r: Result<
    Vec<u8>,
    StoreError,
>)
    ensures
        upsert_body_ok(body@) ==> (r is Err || (r matches Ok(v) && v@ == response_spec(
            OK@,
            Seq::<u8>::empty(),
        ))),
        !upsert_body_ok(body@) ==> (r matches Ok(v) && v@ == response_spec(
            BAD_REQUEST@,
            Seq::<u8>::empty(),
        )),
        r matches Ok(v) ==> is_http_response(v@),
{
    match parse_upsert(body) {
        Some((userid, secret, role)) => match upsert_user(
            conn,
            userid.as_str(),
            secret.as_str(),
            role,
        ) {
            Ok(()) => Ok(empty_response(OK)),
            Err(e) => Err(e),
        },
        None => Ok(empty_response(BAD_REQUEST)),
    }
}

/// The delete answer once the store has said whether it knows the
/// userid: 200 with an empty body exactly when it did, and otherwise
/// the 400 that names the userid.
pub fn delete_reply(known: bool, userid: &String) -> (r: Vec<u8>)
    ensures
        known ==> r@ == response_spec(OK@, Seq::<u8>::empty()),
        !known ==> r@ == response_spec(
            BAD_REQUEST@,
            encode_utf8("user not found: "@ + userid@),
        ),
{
    if known {
        empty_response(OK)
    } else {
        let mut msg = String::new();
        msg.append("user not found: ");
        msg.append(userid.as_str());
        proof {
            assert(msg@ =~= "user not found: "@ + userid@);
        }
        body_response(BAD_REQUEST, msg.as_str().as_bytes())
    }
}

/// Remove the user named by the body: 400 exactly when the body is not
/// UTF-8 text; otherwise 200 when the store knew the userid and the
/// not-found 400 naming it when it did not — `delete_reply` settles
/// which of the two each store answer earns.
pub fn handle_user_delete(conn: &sqlite::Connection, body: &[u8]) -> (r: Result<
    Vec<u8>,
    StoreError,
>)
    ensures
        !valid_utf8(body@) ==> (r matches Ok(v) && v@ == response_spec(
            BAD_REQUEST@,
            encode_utf8("invalid body"@),
        )),
        valid_utf8(body@) ==> (r is Err || (r matches Ok(v) && (v@ == response_spec(
            OK@,
            Seq::<u8>::empty(),
        ) || v@ == response_spec(
            BAD_REQUEST@,
            encode_utf8("user not found: "@ + decode_utf8(body@)),
        )))),
        r matches Ok(v) ==> is_http_response(v@),
{
    let userid = match utf8_string(copy_bytes(body)) {
        Some(u) => u,
        None => {
            return Ok(body_response(BAD_REQUEST, "invalid body".as_bytes()));
        },
    };
    let known = match store_get_hash(conn, userid.as_str()) {
        Ok(stored) => stored.is_some(),
        Err(e) => {
            return Err(e);
        },
    };
    if known {
        match store_delete(conn, userid.as_str()) {
            Ok(()) => {},
            Err(e) => {
                return Err(e);
            },
        }
    }
    Ok(delete_reply(known, &userid))
}

} // verus!
