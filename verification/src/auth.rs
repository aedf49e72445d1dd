//! Who may come in: what an `Authorization` header must look like, how
//! long tokens live, and which claims open which door.
//!
//! Signing and checking tokens, and the list of revoked ones, are the
//! caller's; what they found is handed in.

use vstd::prelude::*;
use crate::json::{
    boolean, items, json_boolean, json_items, json_member, json_string, member, string,
};
use crate::models::auth::{Claims, ClaimsView, TokenType};
use crate::models::user::{User, UserView};
use crate::text::str_eq;

verus! {

/// An access token lives for an hour.
pub const ACCESS_TOKEN_SECONDS: i64 = 3600;

/// A refresh token lives for seven days.
pub const REFRESH_TOKEN_SECONDS: i64 = 604800;

/// Why a request is turned away.
#[derive(Debug)]
pub enum AuthError {
    /// The request shows no valid credential
    Unauthorized(String),
    /// The credential is valid, and not enough
    Forbidden(String),
    /// The check itself could not be made
    Internal(String),
}

/// Why a token did not pass its check.
#[derive(Debug, Clone, Copy, PartialEq, Eq, Structural)]
pub enum TokenFailure {
    /// The token's time is over
    Expired,
    /// Anything else: a bad signature, a token that is none
    Invalid,
}

/// Whether a user with the role `role` may do what asks for
/// `required_role`: with that very role, or as `admin`.
pub open spec fn role_grants(role: Seq<char>, required_role: Seq<char>) -> bool {
    role == required_role || role == "admin"@
}

/// The token in the header `header`: what follows `Bearer ` and a space,
/// where the header starts so.
pub open spec fn bearer_of(header: Seq<char>) -> Option<Seq<char>> {
    if header.len() >= 7 && header.subrange(0, 7) == "Bearer "@ {
        Some(header.subrange(7, header.len() as int))
    } else {
        None
    }
}

/// For how many seconds a token of the kind `token_type` is good.
pub open spec fn lifetime(token_type: TokenType) -> int {
    match token_type {
        TokenType::Access => 3600,
        TokenType::Refresh => 604800,
    }
}

/// What the check of a request comes to: the claims of an access token
/// that is not revoked, or the reason why not.
pub open spec fn admission(
    header: Option<Seq<char>>,
    revoked: bool,
    checked: Result<ClaimsView, TokenFailure>,
) -> Result<ClaimsView, Seq<char>> {
    match header {
        None => Err("No authorization header"@),
        Some(h) => if bearer_of(h) is None {
            Err("Invalid authorization header"@)
        } else if revoked {
            Err("Token has been invalidated"@)
        } else {
            match checked {
                Err(TokenFailure::Expired) => Err("Token has expired"@),
                Err(TokenFailure::Invalid) => Err("Invalid token"@),
                Ok(c) => if c.token_type == TokenType::Access {
                    Ok(c)
                } else {
                    Err("Invalid token type"@)
                },
            }
        },
    }
}

/// Whether the claims open what asks for `required_role`.
pub fn is_authorized(claims: &Claims, required_role: &str) -> (r: bool)
    ensures
        r == role_grants(claims@.role, required_role@),
{
    str_eq(claims.role.as_str(), required_role) || str_eq(claims.role.as_str(), "admin")
}

/// The token in an `Authorization` header, if the header holds one.
pub fn bearer_token(header: &str) -> (r: Option<&str>)
    ensures
        r is Some <==> bearer_of(header@) is Some,
        r matches Some(t) ==> Some(t@) == bearer_of(header@),
{
    let n = header.unicode_len();
    if n < 7 {
        return None;
    }
    if !str_eq(header.substring_char(0, 7), "Bearer ") {
        return None;
    }
    Some(header.substring_char(7, n))
}

/// For how many seconds a token of the kind `token_type` is good.
pub fn token_lifetime(token_type: TokenType) -> (r: i64)
    ensures
        r == lifetime(token_type),
{
    match token_type {
        TokenType::Access => ACCESS_TOKEN_SECONDS,
        TokenType::Refresh => REFRESH_TOKEN_SECONDS,
    }
}

/// The claims of a token for the user `user` that is issued at `now`, in
/// seconds since the epoch. `None` where the token's end cannot be
/// written down.
pub fn claims_for(user: u128, role: &str, token_type: TokenType, now: i64) -> (r: Option<Claims>)
    ensures
        r is Some <==> 0 <= now + lifetime(token_type) <= usize::MAX,
        r matches Some(c) ==> c@ == (ClaimsView {
            sub: user,
            role: role@,
            exp: (now + lifetime(token_type)) as usize,
            token_type,
        }),
{
    let end: i128 = now as i128 + token_lifetime(token_type) as i128;
    if end < 0 || end > usize::MAX as i128 {
        return None;
    }
    Some(Claims { sub: user, role: role.to_owned(), exp: end as usize, token_type })
}

/// Decides on a request from what was found: its `Authorization` header,
/// whether its token is revoked, and what the check of the token gave.
/// Only the claims of an access token that passed and is not revoked come
/// back; every other case is turned away as unauthorized, with its reason.
pub fn check_auth(header: Option<&str>, revoked: bool, checked: Result<Claims, TokenFailure>) -> (r:
    Result<Claims, AuthError>)
    ensures
        (match r {
            Ok(c) => Ok(c@),
            Err(AuthError::Unauthorized(m)) => Err(m@),
            Err(_) => Err(Seq::<char>::empty()),
        }) == admission(
            match header {
                Some(h) => Some(h@),
                None => None,
            },
            revoked,
            match checked {
                Ok(c) => Ok(c@),
                Err(f) => Err(f),
            },
        ),
        r matches Err(e) ==> e is Unauthorized,
{
    let header = match header {
        None => {
            return Err(AuthError::Unauthorized("No authorization header".to_owned()));
        },
        Some(h) => h,
    };
    if bearer_token(header).is_none() {
        return Err(AuthError::Unauthorized("Invalid authorization header".to_owned()));
    }
    if revoked {
        return Err(AuthError::Unauthorized("Token has been invalidated".to_owned()));
    }
    match checked {
        Err(TokenFailure::Expired) => Err(AuthError::Unauthorized("Token has expired".to_owned())),
        Err(TokenFailure::Invalid) => Err(AuthError::Unauthorized("Invalid token".to_owned())),
        Ok(claims) => {
            if claims.token_type == TokenType::Access {
                Ok(claims)
            } else {
                Err(AuthError::Unauthorized("Invalid token type".to_owned()))
            }
        },
    }
}

/// Whether the identity provider's answer `v` says that the token is
/// active.
pub open spec fn is_active(v: serde_json::Value) -> bool {
    match json_member(v, "active"@) {
        Some(a) => json_boolean(a) == Some(true),
        None => false,
    }
}

/// The text of the member `key` of `v`, if it is a string.
pub open spec fn text_of(v: serde_json::Value, key: Seq<char>) -> Option<Seq<char>> {
    match json_member(v, key) {
        Some(m) => json_string(m),
        None => None,
    }
}

/// The first of `roles` that is the string `user` or the string `admin`,
/// if one is.
pub open spec fn first_known_role(roles: Seq<serde_json::Value>) -> Option<Seq<char>>
    decreases roles.len(),
{
    if roles.len() == 0 {
        None
    } else if json_string(roles[0]) == Some("user"@) || json_string(roles[0]) == Some("admin"@) {
        json_string(roles[0])
    } else {
        first_known_role(roles.drop_first())
    }
}

/// The role that the identity provider's answer `v` gives: the first of
/// `realm_access.roles` that is `user` or `admin`, and `user` where there
/// is none.
pub open spec fn role_in(v: serde_json::Value) -> Seq<char> {
    let listed = match json_member(v, "realm_access"@) {
        Some(access) => match json_member(access, "roles"@) {
            Some(roles) => json_items(roles),
            None => None,
        },
        None => None,
    };
    match listed {
        Some(roles) => match first_known_role(roles) {
            Some(role) => role,
            None => "user"@,
        },
        None => "user"@,
    }
}

fn known_role(roles: &Vec<serde_json::Value>) -> (r: Option<String>)
    ensures
        crate::text::opt_text(r) == first_known_role(roles@),
{
    let mut i: usize = 0;
    proof {
        assert(roles@.skip(0) == roles@);
    }
    while i < roles.len()
        invariant
            0 <= i <= roles@.len(),
            first_known_role(roles@) == first_known_role(roles@.skip(i as int)),
        decreases roles@.len() - i,
    {
        proof {
            assert(roles@.skip(i as int)[0] == roles@[i as int]);
            assert(roles@.skip(i as int).drop_first() == roles@.skip(i + 1));
        }
        if let Some(name) = string(&roles[i]) {
            if str_eq(name, "user") || str_eq(name, "admin") {
                return Some(name.to_owned());
            }
        }
        i += 1;
    }
    None
}

fn read_role(token_info: &serde_json::Value) -> (r: String)
    ensures
        r@ == role_in(*token_info),
{
    let listed = match member(token_info, "realm_access") {
        None => None,
        Some(access) => match member(access, "roles") {
            None => None,
            Some(roles) => items(roles),
        },
    };
    let found = match listed {
        None => None,
        Some(roles) => known_role(roles),
    };
    match found {
        Some(role) => role,
        None => "user".to_owned(),
    }
}

/// The user that the identity provider's answer `token_info` vouches for,
/// with the identifier `id` and `now` as the account's times. An answer
/// that does not say `active` turns the request away as unauthorized; an
/// active one without an email address or a name is an internal error.
pub fn exchange_keycloak_token(token_info: &serde_json::Value, id: u128, now: i64) -> (r: Result<
    User,
    AuthError,
>)
    ensures
        if !is_active(*token_info) {
            r matches Err(AuthError::Unauthorized(m)) && m@ == "Invalid Keycloak token"@
        } else if text_of(*token_info, "email"@) is None {
            r matches Err(AuthError::Internal(m)) && m@ == "Missing email in Keycloak token"@
        } else if text_of(*token_info, "name"@) is None {
            r matches Err(AuthError::Internal(m)) && m@ == "Missing name in Keycloak token"@
        } else {
            r matches Ok(user) && user@ == (UserView {
                uuid: id,
                email: text_of(*token_info, "email"@)->Some_0,
                name: text_of(*token_info, "name"@)->Some_0,
                password_hash: Seq::empty(),
                role: role_in(*token_info),
                created_at: now,
                updated_at: now,
            })
        },
{
    let active = match member(token_info, "active") {
        None => false,
        Some(a) => match boolean(a) {
            Some(true) => true,
            _ => false,
        },
    };
    if !active {
        return Err(AuthError::Unauthorized("Invalid Keycloak token".to_owned()));
    }
    let email = match member(token_info, "email") {
        None => None,
        Some(m) => string(m),
    };
    let email = match email {
        None => {
            return Err(AuthError::Internal("Missing email in Keycloak token".to_owned()));
        },
        Some(email) => email,
    };
    let name = match member(token_info, "name") {
        None => None,
        Some(m) => string(m),
    };
    let name = match name {
        None => {
            return Err(AuthError::Internal("Missing name in Keycloak token".to_owned()));
        },
        Some(name) => name,
    };
    Ok(
        User {
            uuid: id,
            email: email.to_owned(),
            name: name.to_owned(),
            password_hash: String::new(),
            role: read_role(token_info),
            created_at: now,
            updated_at: now,
        },
    )
}

} // verus!
