//! Authentication: verify a userid/secret pair against the store's
//! password hash and resolve the stored role into an identity.
//!
//! An unknown userid and a wrong secret fail alike; nothing in the
//! outcome tells them apart.

use vstd::prelude::*;
use vstd::utf8::encode_utf8;
use argon2::Argon2;
use argon2::password_hash::{PasswordHash, PasswordHasher, PasswordVerifier, SaltString};
use argon2::password_hash::rand_core::OsRng;
use crate::role::{Role, role_from_text, role_from_text_spec};
use crate::creds::Credentials;
use crate::store::{StoreError, store_get_hash, store_get_role};
use crate::text::first_index_of;

verus! {

/// Whether the argon2 verifier accepts `secret` against the stored PHC
/// hash text: with fixed default parameters this is a function of the
/// two texts alone, and this names it.
pub uninterp spec fn argon2_matches(secret: Seq<char>, hash: Seq<char>) -> bool;

/// Relies on argon2's `Argon2::verify_password` over
/// `PasswordHash::new`: with the default parameters the outcome depends
/// only on the secret and the hash text; text that does not parse as a
/// PHC string verifies no secret.
#[verifier::external_body]
fn verify_secret(secret: &str, hash: &str) -> (r: bool)
    ensures
        r == argon2_matches(secret@, hash@),
{
    match PasswordHash::new(hash) {
        Ok(parsed) => Argon2::default().verify_password(secret.as_bytes(), &parsed).is_ok(),
        Err(_) => false,
    }
}

/// Relies on argon2's `Argon2::hash_password` with a salt drawn by
/// `SaltString::generate` from the system generator: whatever salt is
/// drawn, the produced PHC text verifies exactly the secret it was made
/// from.
#[verifier::external_body]
pub fn hash_secret(secret: &str) -> (r: Option<String>)
    ensures
        r matches Some(h) ==> argon2_matches(secret@, h@),
{
    let salt = SaltString::generate(&mut OsRng);
    match Argon2::default().hash_password(secret.as_bytes(), &salt) {
        Ok(h) => Some(h.to_string()),
        Err(_) => None,
    }
}

/// The authenticated principal: the userid that verified, and the role
/// the store records for it.
pub struct Identity {
    pub userid: String,
    pub role: Role,
}

/// Whether an identity is the administrator: a pure role test.
pub fn is_admin(identity: &Identity) -> (r: bool)
    ensures
        r == (identity.role == Role::ADMIN),
{
    identity.role == Role::ADMIN
}

/// Whether `secret` verifies against an optional stored hash: an
/// absent hash (an unknown userid) verifies nothing, exactly like a
/// wrong secret.
pub fn check_stored(secret: &str, stored: &Option<String>) -> (r: bool)
    ensures
        r == match stored {
            Some(h) => argon2_matches(secret@, h@),
            None => false,
        },
{
    match stored {
        Some(h) => verify_secret(secret, h.as_str()),
        None => false,
    }
}

/// Verify a userid/secret pair against the hash the store holds for
/// that userid.  The answer reflects the store's state: `Ok(true)`
/// exactly when the store knows the userid and the secret verifies
/// against its hash.  The store's answer is opaque here, so this
/// carries no `ensures` of its own: what each stored value earns is
/// the contract of `check_stored`.
pub fn check_password(conn: &sqlite::Connection, userid: &str, secret: &str) -> (r: Result<
    bool,
    StoreError,
>) {
    match store_get_hash(conn, userid) {
        Ok(stored) => Ok(check_stored(secret, &stored)),
        Err(e) => Err(e),
    }
}

/// The role the store records for `userid`: absent or unrecognised
/// text falls back to `USER`.  The store's answer is opaque here, so
/// this carries no `ensures` of its own: the exact role per stored
/// text is the contract of `role_from_text`.
pub fn lookup_role(conn: &sqlite::Connection, userid: &str) -> (r: Result<Role, StoreError>) {
    match store_get_role(conn, userid) {
        Ok(text) => Ok(role_from_text(&text)),
        Err(e) => Err(e),
    }
}

/// Build the identity granted to verified credentials: it names the
/// credentials' own userid, and carries the role parsed from the
/// stored role text.
pub fn make_identity(creds: &Credentials, role_text: &Option<String>) -> (id: Identity)
    ensures
        id.userid@ == creds.userid@,
        id.role == role_from_text_spec(
            match role_text {
                Some(t) => Some(t@),
                None => None,
            },
        ),
{
    Identity { userid: creds.userid.clone(), role: role_from_text(role_text) }
}

/// Decide the grant for one pair of store answers: an identity is
/// granted exactly when a hash is stored and the secret verifies
/// against it, and it then names the credentials' own userid and
/// carries the role parsed from the stored role text.
pub fn grant(
    creds: &Credentials,
    stored: &Option<String>,
    role_text: &Option<String>,
) -> (r: Option<Identity>)
    ensures
        r is Some <==> (stored matches Some(h) && argon2_matches(creds.secret@, h@)),
        r matches Some(id) ==> id.userid@ == creds.userid@ && id.role == role_from_text_spec(
            match role_text {
                Some(t) => Some(t@),
                None => None,
            },
        ),
{
    if check_stored(creds.secret.as_str(), stored) {
        Some(make_identity(creds, role_text))
    } else {
        None
    }
}

/// Verify credentials and resolve the identity behind them.  `grant`
/// settles what each pair of store answers earns; whatever the store
/// answers, an identity is granted only under the credentials' own
/// userid, and rejection says nothing about why.
pub fn check_credentials(conn: &sqlite::Connection, creds: &Credentials) -> (r: Result<
    Option<Identity>,
    StoreError,
>)
    ensures
        r matches Ok(Some(id)) ==> id.userid@ == creds.userid@,
{
    let stored = match store_get_hash(conn, creds.userid.as_str()) {
        Ok(stored) => stored,
        Err(e) => {
            return Err(e);
        },
    };
    let role_text = if stored.is_some() {
        match store_get_role(conn, creds.userid.as_str()) {
            Ok(text) => text,
            Err(e) => {
                return Err(e);
            },
        }
    } else {
        None
    };
    Ok(grant(creds, &stored, &role_text))
}

/// Law: an identity granted for credentials taken from decoded Basic
/// text names exactly the decoded userid — the text before the first
/// colon — and holds the administrator role exactly when the stored
/// role text is `ADMIN`.
///
/// The premises are what `extract_credentials` guarantees of a pair it
/// found in `decoded`, and what `check_credentials` (through
/// `make_identity`) guarantees of an identity it granted for that pair
/// against stored role text `role_text`.
pub proof fn law_authenticated_identity(
    creds: Credentials,
    decoded: Seq<u8>,
    id: Identity,
    role_text: Option<Seq<char>>,
)
    requires
        creds.matches_decoded(decoded),
        id.userid@ == creds.userid@,
        id.role == role_from_text_spec(role_text),
    ensures
        first_index_of(decoded, 58) matches Some(i) && encode_utf8(id.userid@)
            == decoded.subrange(0, i),
        (id.role == Role::ADMIN) <==> role_text == Some("ADMIN"@),
{
}

} // verus!
