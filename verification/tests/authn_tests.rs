use authpool::authn::{
    check_credentials, check_password, check_stored, grant, hash_secret, is_admin, lookup_role,
    make_identity, Identity,
};
use authpool::handlers::{delete_reply, login_reply};
use authpool::creds::Credentials;
use authpool::handlers::upsert_user;
use authpool::role::Role;
use authpool::store::{store_init, store_upsert};

fn seeded_store() -> sqlite::Connection {
    let conn = sqlite::open(":memory:").unwrap();
    store_init(&conn).unwrap();
    upsert_user(&conn, "admin", "s3cret", Role::ADMIN).unwrap();
    conn
}

#[test]
fn hashed_secret_verifies_only_itself() {
    let hash = hash_secret("pw1").unwrap();
    assert!(check_stored("pw1", &Some(hash.clone())));
    assert!(!check_stored("pw2", &Some(hash)));
    assert!(!check_stored("pw1", &None));
}

#[test]
fn garbage_hash_text_verifies_nothing() {
    assert!(!check_stored("pw1", &Some("not a phc string".to_string())));
}

#[test]
fn check_password_against_the_store() {
    let conn = seeded_store();
    assert_eq!(check_password(&conn, "admin", "s3cret"), Ok(true));
    assert_eq!(check_password(&conn, "admin", "wrong"), Ok(false));
    assert_eq!(check_password(&conn, "ghost", "s3cret"), Ok(false));
}

#[test]
fn lookup_role_defaults_unknown_text_to_user() {
    let conn = seeded_store();
    assert_eq!(lookup_role(&conn, "admin"), Ok(Role::ADMIN));
    assert_eq!(lookup_role(&conn, "ghost"), Ok(Role::USER));
    store_upsert(&conn, "odd", "x", "SUPERUSER").unwrap();
    assert_eq!(lookup_role(&conn, "odd"), Ok(Role::USER));
}

#[test]
fn granted_identity_names_the_credentials_userid_and_stored_role() {
    let conn = seeded_store();
    let creds = Credentials {
        userid: "admin".to_string(),
        secret: "s3cret".to_string(),
    };
    let id = check_credentials(&conn, &creds).unwrap().unwrap();
    assert_eq!(id.userid, "admin");
    assert_eq!(id.role, Role::ADMIN);
    assert!(is_admin(&id));

    let wrong = Credentials {
        userid: "admin".to_string(),
        secret: "nope".to_string(),
    };
    assert!(check_credentials(&conn, &wrong).unwrap().is_none());
}

#[test]
fn grant_follows_the_stored_hash_exactly() {
    let creds = Credentials {
        userid: "alice".to_string(),
        secret: "pw1".to_string(),
    };
    let hash = hash_secret("pw1").unwrap();
    let id = grant(&creds, &Some(hash.clone()), &Some("ADMIN".to_string())).unwrap();
    assert_eq!(id.userid, "alice");
    assert_eq!(id.role, Role::ADMIN);
    assert!(grant(&creds, &None, &Some("ADMIN".to_string())).is_none());
    let wrong = Credentials {
        userid: "alice".to_string(),
        secret: "pw2".to_string(),
    };
    assert!(grant(&wrong, &Some(hash), &None).is_none());
}

#[test]
fn login_and_delete_replies_follow_their_verdicts() {
    assert_eq!(
        login_reply(true),
        b"HTTP/1.1 200 OK\r\nContent-Length: 0\r\n\r\n".to_vec()
    );
    assert_eq!(
        login_reply(false),
        b"HTTP/1.1 401 Unauthorized\r\nContent-Length: 0\r\n\r\n".to_vec()
    );
    assert_eq!(
        delete_reply(true, &"bob".to_string()),
        b"HTTP/1.1 200 OK\r\nContent-Length: 0\r\n\r\n".to_vec()
    );
    assert_eq!(
        delete_reply(false, &"bob".to_string()),
        b"HTTP/1.1 400 Bad Request\r\nContent-Length: 19\r\n\r\nuser not found: bob".to_vec()
    );
}

#[test]
fn make_identity_parses_the_role_text() {
    let creds = Credentials {
        userid: "alice".to_string(),
        secret: "pw".to_string(),
    };
    let id = make_identity(&creds, &Some("ADMIN".to_string()));
    assert_eq!(id.userid, "alice");
    assert_eq!(id.role, Role::ADMIN);
    let id = make_identity(&creds, &Some("BOGUS".to_string()));
    assert_eq!(id.role, Role::USER);
    let id = make_identity(&creds, &None);
    assert_eq!(id.role, Role::USER);
    let plain: Identity = id;
    assert!(!is_admin(&plain));
}
