//! The request pipeline for one connection: version check, credential
//! extraction, authentication, the role gate, dispatch, and exactly one
//! response — or an abort with none when framing or the store fails.

use vstd::prelude::*;
use vstd::utf8::encode_utf8;
use crate::response::{
    OK, UNAUTHORIZED, NOT_IMPLEMENTED, response_spec, is_http_response, empty_response, echo_body,
};
use crate::role::Role;
use crate::framer::RawRequest;
use crate::creds::{
    CredExtract, Credentials, extract_credentials, auth_header_spec, extraction_finds,
};
use crate::authn::{Identity, check_credentials, is_admin};
use crate::handlers::{
    handle_login, list_users, handle_user_reset, handle_user_upsert, handle_user_delete,
};
use crate::store::StoreError;
use crate::text::{views_of, bytes_eq};

verus! {

/// The routes this server knows.
#[derive(PartialEq, Eq, Structural, Clone, Copy, Debug)]
pub enum Route {
    Root,
    List,
    Login,
    Sleep,
    Dump,
    Reset,
    Upsert,
    Delete,
}

/// Whether a route is reserved to the administrator.  Admin-only
/// status is a property of the route itself, checked after
/// authentication and before the handler runs.
pub open spec fn admin_only(route: Route) -> bool {
    route == Route::List || route == Route::Sleep || route == Route::Upsert || route
        == Route::Delete
}

/// The route registered for a method and path, by exact match.
pub open spec fn route_spec(method: Seq<u8>, path: Seq<u8>) -> Option<Route> {
    if method == encode_utf8("GET"@) {
        if path == encode_utf8("/"@) {
            Some(Route::Root)
        } else if path == encode_utf8("/list"@) {
            Some(Route::List)
        } else if path == encode_utf8("/login"@) {
            Some(Route::Login)
        } else if path == encode_utf8("/sleep"@) {
            Some(Route::Sleep)
        } else {
            None
        }
    } else if method == encode_utf8("POST"@) {
        if path == encode_utf8("/dump"@) {
            Some(Route::Dump)
        } else if path == encode_utf8("/reset"@) {
            Some(Route::Reset)
        } else if path == encode_utf8("/upsert"@) {
            Some(Route::Upsert)
        } else if path == encode_utf8("/delete"@) {
            Some(Route::Delete)
        } else {
            None
        }
    } else {
        None
    }
}

/// Look a method and path up in the route table.
pub fn route_for(method: &[u8], path: &[u8]) -> (r: Option<Route>)
    ensures
        r == route_spec(method@, path@),
{
    if bytes_eq(method, "GET".as_bytes()) {
        if bytes_eq(path, "/".as_bytes()) {
            Some(Route::Root)
        } else if bytes_eq(path, "/list".as_bytes()) {
            Some(Route::List)
        } else if bytes_eq(path, "/login".as_bytes()) {
            Some(Route::Login)
        } else if bytes_eq(path, "/sleep".as_bytes()) {
            Some(Route::Sleep)
        } else {
            None
        }
    } else if bytes_eq(method, "POST".as_bytes()) {
        if bytes_eq(path, "/dump".as_bytes()) {
            Some(Route::Dump)
        } else if bytes_eq(path, "/reset".as_bytes()) {
            Some(Route::Reset)
        } else if bytes_eq(path, "/upsert".as_bytes()) {
            Some(Route::Upsert)
        } else if bytes_eq(path, "/delete".as_bytes()) {
            Some(Route::Delete)
        } else {
            None
        }
    } else {
        None
    }
}

/// Exact admin-only test for one route.
pub fn route_admin_only(route: Route) -> (r: bool)
    ensures
        r == admin_only(route),
{
    route == Route::List || route == Route::Sleep || route == Route::Upsert || route
        == Route::Delete
}

/// A response to write: the bytes, after waiting the given delay.
pub struct Reply {
    pub delay_seconds: u64,
    pub bytes: Vec<u8>,
}

/// How one connection ends: with exactly one response, or aborted
/// with none when the store (or the hasher) failed mid-request.
pub enum Outcome {
    /// Close the connection without a response.
    Abort,
    /// Write this one response, then close.
    Respond(Reply),
}

/// A 401 with an empty body.
pub open spec fn unauthorized_spec() -> Seq<u8> {
    response_spec(UNAUTHORIZED@, Seq::<u8>::empty())
}

/// A 501 with an empty body.
pub open spec fn not_implemented_spec() -> Seq<u8> {
    response_spec(NOT_IMPLEMENTED@, Seq::<u8>::empty())
}

/// Run the handler for a route the caller may reach.
fn dispatch(
    conn: &sqlite::Connection,
    route: Route,
    identity: &Identity,
    creds: &Credentials,
    body: &[u8],
) -> (r: Result<Reply, StoreError>)
    ensures
        r matches Ok(rep) ==> rep.delay_seconds == 0 || (rep.delay_seconds == 5 && route
            == Route::Sleep && rep.bytes@ == response_spec(OK@, Seq::<u8>::empty())),
        route == Route::Root ==> (r matches Ok(rep) && rep.bytes@ == response_spec(
            OK@,
            Seq::<u8>::empty(),
        ) && rep.delay_seconds == 0),
        route == Route::Dump ==> (r matches Ok(rep) && rep.bytes@ == response_spec(OK@, body@)
            && rep.delay_seconds == 0),
        route == Route::Sleep ==> (r matches Ok(rep) && rep.bytes@ == response_spec(
            OK@,
            Seq::<u8>::empty(),
        ) && rep.delay_seconds == 5),
        r matches Ok(rep) ==> is_http_response(rep.bytes@),
{
    match route {
        Route::Root => Ok(Reply { delay_seconds: 0, bytes: empty_response(OK) }),
        Route::List => match list_users(conn) {
            Ok(bytes) => Ok(Reply { delay_seconds: 0, bytes }),
            Err(e) => Err(e),
        },
        Route::Login => match handle_login(conn, creds) {
            Ok(bytes) => Ok(Reply { delay_seconds: 0, bytes }),
            Err(e) => Err(e),
        },
        Route::Sleep => Ok(Reply { delay_seconds: 5, bytes: empty_response(OK) }),
        Route::Dump => Ok(Reply { delay_seconds: 0, bytes: echo_body(body) }),
        Route::Reset => match handle_user_reset(conn, identity, body) {
            Ok(bytes) => Ok(Reply { delay_seconds: 0, bytes }),
            Err(e) => Err(e),
        },
        Route::Upsert => match handle_user_upsert(conn, body) {
            Ok(bytes) => Ok(Reply { delay_seconds: 0, bytes }),
            Err(e) => Err(e),
        },
        Route::Delete => match handle_user_delete(conn, body) {
            Ok(bytes) => Ok(Reply { delay_seconds: 0, bytes }),
            Err(e) => Err(e),
        },
    }
}

/// Decide everything after a granted identity: look the route up,
/// refuse admin-only routes to anyone but the administrator, then run
/// the handler.  An unknown route is answered 501; an admin-only route
/// with a non-admin identity is answered the empty 401 and no handler
/// runs; only then does the route's handler produce the reply.
fn gate_and_dispatch(
    conn: &sqlite::Connection,
    req: &RawRequest,
    identity: &Identity,
    creds: &Credentials,
) -> (r: Result<Reply, StoreError>)
    ensures
        route_spec(req.head.method@, req.head.path@) is None ==> (r matches Ok(rep)
            && rep.bytes@ == not_implemented_spec() && rep.delay_seconds == 0),
        (route_spec(req.head.method@, req.head.path@) matches Some(rt) && admin_only(rt)
            && identity.role != Role::ADMIN) ==> (r matches Ok(rep) && rep.bytes@
            == unauthorized_spec() && rep.delay_seconds == 0),
        r matches Ok(rep) ==> rep.delay_seconds == 0 || (rep.delay_seconds == 5 && route_spec(
            req.head.method@,
            req.head.path@,
        ) == Some(Route::Sleep) && rep.bytes@ == response_spec(OK@, Seq::<u8>::empty())),
        r matches Ok(rep) ==> is_http_response(rep.bytes@),
{
    let route = match route_for(req.head.method.as_slice(), req.head.path.as_slice()) {
        Some(route) => route,
        None => {
            return Ok(Reply { delay_seconds: 0, bytes: empty_response(NOT_IMPLEMENTED) });
        },
    };
    if route_admin_only(route) && !is_admin(identity) {
        return Ok(Reply { delay_seconds: 0, bytes: empty_response(UNAUTHORIZED) });
    }
    dispatch(conn, route, identity, creds, req.body.as_slice())
}

/// Handle one framed request: check the protocol version, extract and
/// verify the credentials, gate admin-only routes, run the handler,
/// and yield exactly one response — or an abort when the store failed.
///
/// An unsupported version is answered 501 before anything else is
/// looked at.  A request with no `Authorization` header is answered
/// 401 with no handler ever run.  Authentication failure and a failed
/// role gate are answered 401; an unknown route 501.  A response is
/// delayed only for the admin sleep route, and then carries 200.
pub fn handle_request(conn: &sqlite::Connection, req: &RawRequest) -> (r: Outcome)
    requires
        req.wf(),
    ensures
        req.head.version@ != encode_utf8("HTTP/1.1"@) ==> (r matches Outcome::Respond(rep)
            && rep.bytes@ == not_implemented_spec() && rep.delay_seconds == 0),
        req.head.version@ == encode_utf8("HTTP/1.1"@) && auth_header_spec(
            views_of(req.head.headers@),
        ) is None ==> (r matches Outcome::Respond(rep) && rep.bytes@ == unauthorized_spec()
            && rep.delay_seconds == 0),
        req.head.version@ == encode_utf8("HTTP/1.1"@) && !extraction_finds(
            views_of(req.head.headers@),
        ) ==> (r matches Outcome::Respond(rep) && rep.bytes@ == unauthorized_spec()
            && rep.delay_seconds == 0),
        r matches Outcome::Respond(rep) ==> rep.delay_seconds == 0 || (rep.delay_seconds == 5
            && route_spec(req.head.method@, req.head.path@) == Some(Route::Sleep) && rep.bytes@
            == response_spec(OK@, Seq::<u8>::empty())),
        req.head.version@ == encode_utf8("HTTP/1.1"@) && route_spec(
            req.head.method@,
            req.head.path@,
        ) is None ==> (r is Abort || (r matches Outcome::Respond(rep) && (rep.bytes@
            == unauthorized_spec() || rep.bytes@ == not_implemented_spec()))),
        r matches Outcome::Respond(rep) ==> is_http_response(rep.bytes@),
{
    if !bytes_eq(req.head.version.as_slice(), "HTTP/1.1".as_bytes()) {
        return Outcome::Respond(
            Reply { delay_seconds: 0, bytes: empty_response(NOT_IMPLEMENTED) },
        );
    }
    let creds = match extract_credentials(&req.head.headers) {
        CredExtract::Found(c) => c,
        CredExtract::Missing => {
            return Outcome::Respond(
                Reply { delay_seconds: 0, bytes: empty_response(UNAUTHORIZED) },
            );
        },
        CredExtract::Malformed => {
            return Outcome::Respond(
                Reply { delay_seconds: 0, bytes: empty_response(UNAUTHORIZED) },
            );
        },
    };
    let identity = match check_credentials(conn, &creds) {
        Ok(Some(id)) => id,
        Ok(None) => {
            return Outcome::Respond(
                Reply { delay_seconds: 0, bytes: empty_response(UNAUTHORIZED) },
            );
        },
        Err(_) => {
            return Outcome::Abort;
        },
    };
    match gate_and_dispatch(conn, req, &identity, &creds) {
        Ok(rep) => Outcome::Respond(rep),
        Err(_) => Outcome::Abort,
    }
}

} // verus!
