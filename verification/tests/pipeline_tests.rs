use authpool::framer::{assemble, parse_head};
use authpool::handlers::upsert_user;
use authpool::pipeline::{handle_request, Outcome};
use authpool::role::Role;
use authpool::store::store_init;
use base64::Engine;

fn seeded_store() -> sqlite::Connection {
    let conn = sqlite::open(":memory:").unwrap();
    store_init(&conn).unwrap();
    upsert_user(&conn, "admin", "s3cret", Role::ADMIN).unwrap();
    conn
}

fn basic_auth_line(userid: &str, secret: &str) -> String {
    let token = base64::engine::general_purpose::STANDARD.encode(format!("{userid}:{secret}"));
    format!("Authorization: Basic {token}\r\n")
}

fn run(conn: &sqlite::Connection, raw_lines: &[String], body: &[u8]) -> Outcome {
    let lines: Vec<Vec<u8>> = raw_lines.iter().map(|s| s.as_bytes().to_vec()).collect();
    let head = parse_head(&lines).expect("request line must parse");
    let req = assemble(head, body.to_vec()).expect("body must match the declared length");
    handle_request(conn, &req)
}

fn run_as(
    conn: &sqlite::Connection,
    userid: &str,
    secret: &str,
    request_line: &str,
    body: &[u8],
) -> Outcome {
    let lines = vec![
        format!("{request_line} HTTP/1.1\r\n"),
        basic_auth_line(userid, secret),
        format!("Content-Length: {}\r\n", body.len()),
    ];
    run(conn, &lines, body)
}

fn response_bytes(outcome: Outcome) -> Vec<u8> {
    match outcome {
        Outcome::Respond(reply) => reply.bytes,
        Outcome::Abort => panic!("expected a response, not an abort"),
    }
}

fn empty(status: &str) -> Vec<u8> {
    format!("{status}\r\nContent-Length: 0\r\n\r\n").into_bytes()
}

fn with_body(status: &str, body: &str) -> Vec<u8> {
    format!("{status}\r\nContent-Length: {}\r\n\r\n{body}", body.len()).into_bytes()
}

const OK: &str = "HTTP/1.1 200 OK";
const BAD_REQUEST: &str = "HTTP/1.1 400 Bad Request";
const UNAUTHORIZED: &str = "HTTP/1.1 401 Unauthorized";
const NOT_IMPLEMENTED: &str = "HTTP/1.1 501 Not Implemented";

#[test]
fn no_authorization_header_yields_401() {
    let conn = seeded_store();
    let lines = vec!["GET / HTTP/1.1\r\n".to_string(), "Host: x\r\n".to_string()];
    assert_eq!(response_bytes(run(&conn, &lines, b"")), empty(UNAUTHORIZED));
}

#[test]
fn wrong_secret_and_unknown_user_yield_the_same_401() {
    let conn = seeded_store();
    let a = response_bytes(run_as(&conn, "admin", "wrong", "GET /", b""));
    let b = response_bytes(run_as(&conn, "nobody", "whatever", "GET /", b""));
    assert_eq!(a, empty(UNAUTHORIZED));
    assert_eq!(a, b);
}

#[test]
fn authenticated_root_yields_200() {
    let conn = seeded_store();
    let out = run_as(&conn, "admin", "s3cret", "GET /", b"");
    assert_eq!(response_bytes(out), empty(OK));
}

#[test]
fn unsupported_version_yields_501() {
    let conn = seeded_store();
    let lines = vec![
        "GET / HTTP/1.0\r\n".to_string(),
        basic_auth_line("admin", "s3cret"),
    ];
    assert_eq!(
        response_bytes(run(&conn, &lines, b"")),
        empty(NOT_IMPLEMENTED)
    );
}

#[test]
fn unknown_route_yields_501() {
    let conn = seeded_store();
    let out = run_as(&conn, "admin", "s3cret", "GET /nowhere", b"");
    assert_eq!(response_bytes(out), empty(NOT_IMPLEMENTED));
    let out = run_as(&conn, "admin", "s3cret", "PUT /", b"");
    assert_eq!(response_bytes(out), empty(NOT_IMPLEMENTED));
}

#[test]
fn dump_echoes_the_body_verbatim() {
    let conn = seeded_store();
    let out = run_as(&conn, "admin", "s3cret", "POST /dump", b"hello");
    assert_eq!(response_bytes(out), with_body(OK, "hello"));
}

#[test]
fn upsert_then_login_roundtrip() {
    // Seeded admin upserts alice:pw1; alice's good login is 200 and a
    // wrong secret is 401.
    let conn = seeded_store();
    let out = run_as(&conn, "admin", "s3cret", "POST /upsert", b"alice:pw1");
    assert_eq!(response_bytes(out), empty(OK));
    let out = run_as(&conn, "alice", "pw1", "GET /login", b"");
    assert_eq!(response_bytes(out), empty(OK));
    let out = run_as(&conn, "alice", "wrong", "GET /login", b"");
    assert_eq!(response_bytes(out), empty(UNAUTHORIZED));
}

#[test]
fn bogus_role_defaults_to_user_not_admin() {
    // bob is created with an unrecognised role text and must come out
    // a plain user: the admin-only listing turns him away.
    let conn = seeded_store();
    let out = run_as(&conn, "admin", "s3cret", "POST /upsert", b"bob:pw:BOGUS_ROLE");
    assert_eq!(response_bytes(out), empty(OK));
    let out = run_as(&conn, "bob", "pw", "GET /list", b"");
    assert_eq!(response_bytes(out), empty(UNAUTHORIZED));
}

#[test]
fn list_is_admin_only_and_returns_a_json_array() {
    let conn = seeded_store();
    let out = run_as(&conn, "admin", "s3cret", "POST /upsert", b"alice:pw1");
    assert_eq!(response_bytes(out), empty(OK));
    let out = run_as(&conn, "alice", "pw1", "GET /list", b"");
    assert_eq!(response_bytes(out), empty(UNAUTHORIZED));
    let bytes = response_bytes(run_as(&conn, "admin", "s3cret", "GET /list", b""));
    let text = String::from_utf8(bytes).unwrap();
    assert!(text.starts_with("HTTP/1.1 200 OK\r\n"));
    let body_at = text.find("\r\n\r\n").unwrap() + 4;
    let rows: Vec<String> = serde_json::from_str(&text[body_at..]).unwrap();
    assert_eq!(rows.len(), 2);
    assert!(rows.iter().any(|r| r.starts_with("userid: admin, password: ")));
    assert!(rows.iter().any(|r| r.starts_with("userid: alice, password: ")));
}

#[test]
fn deleting_a_missing_user_yields_400_naming_it() {
    let conn = seeded_store();
    let out = run_as(&conn, "admin", "s3cret", "POST /delete", b"nosuchuser");
    assert_eq!(
        response_bytes(out),
        with_body(BAD_REQUEST, "user not found: nosuchuser")
    );
}

#[test]
fn deleting_an_existing_user_yields_200() {
    let conn = seeded_store();
    let out = run_as(&conn, "admin", "s3cret", "POST /upsert", b"alice:pw1");
    assert_eq!(response_bytes(out), empty(OK));
    let out = run_as(&conn, "admin", "s3cret", "POST /delete", b"alice");
    assert_eq!(response_bytes(out), empty(OK));
    let out = run_as(&conn, "alice", "pw1", "GET /login", b"");
    assert_eq!(response_bytes(out), empty(UNAUTHORIZED));
}

#[test]
fn delete_and_upsert_are_admin_only() {
    let conn = seeded_store();
    let out = run_as(&conn, "admin", "s3cret", "POST /upsert", b"alice:pw1");
    assert_eq!(response_bytes(out), empty(OK));
    let out = run_as(&conn, "alice", "pw1", "POST /delete", b"admin");
    assert_eq!(response_bytes(out), empty(UNAUTHORIZED));
    let out = run_as(&conn, "alice", "pw1", "POST /upsert", b"eve:pw");
    assert_eq!(response_bytes(out), empty(UNAUTHORIZED));
}

#[test]
fn upsert_with_a_bad_field_count_yields_400() {
    let conn = seeded_store();
    let out = run_as(&conn, "admin", "s3cret", "POST /upsert", b"loneuserid");
    assert_eq!(response_bytes(out), empty(BAD_REQUEST));
    let out = run_as(&conn, "admin", "s3cret", "POST /upsert", b"a:b:c:d");
    assert_eq!(response_bytes(out), empty(BAD_REQUEST));
}

#[test]
fn reset_changes_only_the_callers_password() {
    let conn = seeded_store();
    let out = run_as(&conn, "admin", "s3cret", "POST /upsert", b"alice:pw1");
    assert_eq!(response_bytes(out), empty(OK));
    let out = run_as(&conn, "alice", "pw1", "POST /reset", b"newpw");
    assert_eq!(response_bytes(out), empty(OK));
    let out = run_as(&conn, "alice", "newpw", "GET /login", b"");
    assert_eq!(response_bytes(out), empty(OK));
    let out = run_as(&conn, "alice", "pw1", "GET /login", b"");
    assert_eq!(response_bytes(out), empty(UNAUTHORIZED));
}

#[test]
fn reset_keeps_the_callers_role() {
    let conn = seeded_store();
    let out = run_as(&conn, "admin", "s3cret", "POST /reset", b"other");
    assert_eq!(response_bytes(out), empty(OK));
    let bytes = response_bytes(run_as(&conn, "admin", "other", "GET /list", b""));
    assert!(bytes.starts_with(b"HTTP/1.1 200 OK\r\n"));
}

#[test]
fn sleep_is_admin_only_and_carries_the_delay() {
    let conn = seeded_store();
    let out = run_as(&conn, "admin", "s3cret", "POST /upsert", b"alice:pw1");
    assert_eq!(response_bytes(out), empty(OK));
    match run_as(&conn, "admin", "s3cret", "GET /sleep", b"") {
        Outcome::Respond(reply) => {
            assert_eq!(reply.delay_seconds, 5);
            assert_eq!(reply.bytes, empty(OK));
        },
        Outcome::Abort => panic!("expected a response"),
    }
    match run_as(&conn, "alice", "pw1", "GET /sleep", b"") {
        Outcome::Respond(reply) => {
            assert_eq!(reply.delay_seconds, 0);
            assert_eq!(reply.bytes, empty(UNAUTHORIZED));
        },
        Outcome::Abort => panic!("expected a response"),
    }
}
