//! The session cookie that carries a token.

use vstd::prelude::*;
use crate::jwt::{Claims, claims_json, is_token_text, jwt_encoded, token_for_claims, token_secret};

verus! {

/// A cookie as the site sets it: a name, a value, a path and whether
/// scripts may not read it.
#[derive(Debug)]
pub struct SessionCookie {
    pub name: String,
    pub value: String,
    pub path: String,
    pub http_only: bool,
}

/// The session cookie holding `value`: `refresh_token`, for path `/`,
/// HTTP only.
pub open spec fn is_session_cookie(c: SessionCookie, value: Seq<char>) -> bool {
    &&& c.name@ == "refresh_token"@
    &&& c.value@ == value
    &&& c.path@ == "/"@
    &&& c.http_only
}

pub fn session_cookie(value: String) -> (r: SessionCookie)
    ensures
        is_session_cookie(r, value@),
{
    SessionCookie {
        name: String::from_str("refresh_token"),
        value,
        path: String::from_str("/"),
        http_only: true,
    }
}

/// The session cookie with the token of `claims`.
pub fn create_cookie_auth(claims: &Claims) -> (r: SessionCookie)
    ensures
        jwt_encoded(claims_json(claims@), token_secret()) == Some(r.value@),
        is_session_cookie(r, r.value@),
        is_token_text(r.value@),
{
    session_cookie(token_for_claims(claims))
}

/// The session cookie emptied, which ends a session.
pub fn create_cookie_auth_clear() -> (r: SessionCookie)
    ensures
        is_session_cookie(r, Seq::<char>::empty()),
{
    session_cookie(String::new())
}

} // verus!
