//! Decisions of the login handler `/api/auth`, shared with the handlers
//! that renew a session.

use vstd::prelude::*;
use crate::controllers::object_of_controller::RequestResult;
use crate::cookie::{SessionCookie, is_session_cookie, session_cookie};
use crate::jwt::{TOKEN_EXP, claims_json, create_token, is_token_text, jwt_encoded, token_secret};
use crate::models::UserDictionary;

verus! {

/// What a login does once the user has been looked up.
#[derive(Debug)]
pub enum LoginStep {
    /// The password matched: load the user's dictionaries for the session.
    LoadDictionaries(i32),
    /// Answer at once.
    Reply(RequestResult),
}

/// The step after `check_auth` gave `user_id` (-1 where the login failed).
pub fn login_step(user_id: i32) -> (r: LoginStep)
    ensures
        user_id == -1 ==> r == LoginStep::Reply(RequestResult { status: false }),
        user_id != -1 ==> r == LoginStep::LoadDictionaries(user_id),
{
    if user_id != -1 {
        LoginStep::LoadDictionaries(user_id)
    } else {
        LoginStep::Reply(RequestResult { status: false })
    }
}

/// The answer that opens or renews a session: the session cookie with a new
/// token, and success.
#[derive(Debug)]
pub struct SessionReply {
    pub cookie: SessionCookie,
    pub result: RequestResult,
}

/// The token payload of a session that starts on the first dictionary.
pub open spec fn session_payload(
    user_id: i32,
    user_name: Seq<char>,
    admin: bool,
    user_dictionaries: Seq<UserDictionary>,
) -> Seq<char> {
    claims_json(
        (
            user_id,
            user_name,
            user_dictionaries.map_values(|d: UserDictionary| d@),
            admin,
            TOKEN_EXP,
            0usize,
        ),
    )
}

/// The answer for a session of this user with these dictionaries.
pub fn session_reply(
    user_id: i32,
    user_name: String,
    admin: bool,
    user_dictionaries: Vec<UserDictionary>,
) -> (r: SessionReply)
    ensures
        r.result == (RequestResult { status: true }),
        is_session_cookie(r.cookie, r.cookie.value@),
        jwt_encoded(session_payload(user_id, user_name@, admin, user_dictionaries@), token_secret())
            == Some(r.cookie.value@),
        is_token_text(r.cookie.value@),
{
    let token = create_token(user_id, user_name, admin, user_dictionaries, 0);
    SessionReply { cookie: session_cookie(token), result: RequestResult { status: true } }
}

} // verus!
