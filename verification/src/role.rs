//! The closed set of roles and its lossy text form: parsing is total,
//! and text that names no known role falls back to `USER`, never to
//! `ADMIN`.

use vstd::prelude::*;

verus! {

/// The two recognised roles.
#[derive(PartialEq, Eq, Structural, Clone, Copy, Debug)]
pub enum Role {
    ADMIN,
    USER,
}

/// The text under which a role is stored.
pub open spec fn role_text(role: Role) -> Seq<char> {
    match role {
        Role::ADMIN => "ADMIN"@,
        Role::USER => "USER"@,
    }
}

/// Write a role out as its stored text.
pub fn serialize_role(role: Role) -> (r: String)
    ensures
        r@ == role_text(role),
{
    match role {
        Role::ADMIN => "ADMIN".to_owned(),
        Role::USER => "USER".to_owned(),
    }
}

/// The role that `value` names, if it names one.
pub open spec fn parse_role_spec(value: Seq<char>) -> Option<Role> {
    if value == "ADMIN"@ {
        Some(Role::ADMIN)
    } else if value == "USER"@ {
        Some(Role::USER)
    } else {
        None
    }
}

/// Read a role from its stored text.
pub fn parse_role(value: &String) -> (r: Option<Role>)
    ensures
        r == parse_role_spec(value@),
{
    let admin = "ADMIN".to_owned();
    let user = "USER".to_owned();
    if *value == admin {
        Some(Role::ADMIN)
    } else if *value == user {
        Some(Role::USER)
    } else {
        None
    }
}

/// The role taken for a stored text that may be absent or unrecognised:
/// only the exact text `ADMIN` grants the administrator role.
pub open spec fn role_from_text_spec(value: Option<Seq<char>>) -> Role {
    match value {
        Some(v) => if v == "ADMIN"@ {
            Role::ADMIN
        } else {
            Role::USER
        },
        None => Role::USER,
    }
}

/// Total parse of an optional stored role text.
pub fn role_from_text(value: &Option<String>) -> (r: Role)
    ensures
        r == role_from_text_spec(
            match value {
                Some(v) => Some(v@),
                None => None,
            },
        ),
{
    match value {
        Some(v) => match parse_role(v) {
            Some(role) => role,
            None => Role::USER,
        },
        None => Role::USER,
    }
}

} // verus!
