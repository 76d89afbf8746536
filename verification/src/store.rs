//! The credential store: a sqlite table keyed by userid, holding a
//! password hash and a role text per user.
//!
//! Every statement is prepared with bound parameters; no value is ever
//! interpolated into SQL text.  What the store answers depends on what
//! is on disk, so the wrappers promise nothing about the values; the
//! callers state what they do with whatever comes back.

use vstd::prelude::*;

verus! {

/// The sqlite connection handle; opaque to the verified code.
#[verifier::external_type_specification]
#[verifier::external_body]
pub struct ExConnection(sqlite::Connection);

/// The store failed to answer: an error while preparing, binding or
/// stepping a statement.
#[derive(Clone, Copy, Debug, PartialEq, Eq, Structural)]
pub struct StoreError;

/// Relies on sqlite's `Connection::execute`: create the users table if
/// it is not there yet.
#[verifier::external_body]
pub fn store_init(conn: &sqlite::Connection) -> (r: Result<(), StoreError>)
{
    let query = "CREATE TABLE IF NOT EXISTS users (userid TEXT PRIMARY KEY, password TEXT, role TEXT)";
    conn.execute(query).map_err(|_| StoreError)
}

/// Relies on sqlite's `Connection::prepare`, `Statement::bind`,
/// `Statement::next` and `Statement::read`: the stored password hash
/// for `userid`, or `None` when the store has no such user.
#[verifier::external_body]
pub fn store_get_hash(conn: &sqlite::Connection, userid: &str) -> (r: Result<
    Option<String>,
    StoreError,
>)
{
    let mut st = conn.prepare("SELECT password FROM users WHERE userid = ?").map_err(
        |_| StoreError,
    )?;
    st.bind((1, userid)).map_err(|_| StoreError)?;
    match st.next().map_err(|_| StoreError)? {
        sqlite::State::Row => Ok(Some(st.read::<String, _>(0).map_err(|_| StoreError)?)),
        sqlite::State::Done => Ok(None),
    }
}

/// Relies on sqlite's `Connection::prepare`, `Statement::bind`,
/// `Statement::next` and `Statement::read`: the stored role text for
/// `userid`, or `None` when the store has no such user or no role.
#[verifier::external_body]
pub fn store_get_role(conn: &sqlite::Connection, userid: &str) -> (r: Result<
    Option<String>,
    StoreError,
>)
{
    let mut st = conn.prepare("SELECT role FROM users WHERE userid = ?").map_err(
        |_| StoreError,
    )?;
    st.bind((1, userid)).map_err(|_| StoreError)?;
    match st.next().map_err(|_| StoreError)? {
        sqlite::State::Row => st.read::<Option<String>, _>(0).map_err(|_| StoreError),
        sqlite::State::Done => Ok(None),
    }
}

/// Relies on sqlite's `Connection::prepare`, `Statement::bind` and
/// `Statement::next`: write or overwrite the row for `userid` with the
/// given hash and role text.
#[verifier::external_body]
pub fn store_upsert(
    conn: &sqlite::Connection,
    userid: &str,
    hash: &str,
    role: &str,
) -> (r: Result<(), StoreError>)
{
    let query =
        "INSERT INTO users (userid, password, role) VALUES (?, ?, ?) ON CONFLICT(userid) DO UPDATE SET password = excluded.password, role = excluded.role";
    let mut st = conn.prepare(query).map_err(|_| StoreError)?;
    st.bind((1, userid)).map_err(|_| StoreError)?;
    st.bind((2, hash)).map_err(|_| StoreError)?;
    st.bind((3, role)).map_err(|_| StoreError)?;
    match st.next().map_err(|_| StoreError)? {
        sqlite::State::Done => Ok(()),
        sqlite::State::Row => Err(StoreError),
    }
}

/// Relies on sqlite's `Connection::prepare`, `Statement::bind` and
/// `Statement::next`: remove the row for `userid`, whether or not one
/// is there.
#[verifier::external_body]
pub fn store_delete(conn: &sqlite::Connection, userid: &str) -> (r: Result<(), StoreError>)
{
    let mut st = conn.prepare("DELETE FROM users WHERE userid = ?").map_err(|_| StoreError)?;
    st.bind((1, userid)).map_err(|_| StoreError)?;
    match st.next().map_err(|_| StoreError)? {
        sqlite::State::Done => Ok(()),
        sqlite::State::Row => Err(StoreError),
    }
}

/// Relies on sqlite's `Connection::prepare`, `Statement::next` and
/// `Statement::read`: every stored (userid, password hash) pair, in
/// the store's order.
#[verifier::external_body]
pub fn store_list(conn: &sqlite::Connection) -> (r: Result<Vec<(String, String)>, StoreError>)
{
    let mut st = conn.prepare("SELECT userid, password FROM users").map_err(|_| StoreError)?;
    let mut rows: Vec<(String, String)> = Vec::new();
    while let sqlite::State::Row = st.next().map_err(|_| StoreError)? {
        let userid = st.read::<String, _>(0).map_err(|_| StoreError)?;
        let hash = st.read::<String, _>(1).map_err(|_| StoreError)?;
        rows.push((userid, hash));
    }
    Ok(rows)
}

} // verus!
