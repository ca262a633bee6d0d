//! The guard in front of `/api/userspace`: it reads the `refresh_token`
//! cookie, checks the token, and lets the request through only for a user
//! who has chosen at least one dictionary.

use std::rc::Rc;
use vstd::prelude::*;
use crate::controllers::object_of_controller::ErrorDb;
use crate::cookie::{SessionCookie, create_cookie_auth_clear, is_session_cookie};
use crate::jwt::{
    Claims, ClaimsView, claims_json, is_token_char, is_token_text, jwt_encoded, jwt_verified_claims, read_claims, result_claims_view,
    now_timestamp, token_check, token_secret, validate_token_at,
};
use crate::text::{
    chars_of, first_index_of, is_white_space, lemma_first_index_of, lemma_trim_end,
    lemma_trim_start, option_string_view, range_equals, string_of_range, trim, white_space,
};

verus! {

/// The value that one `;`-separated piece of a `Cookie` header gives for
/// `name`: the piece is trimmed, split at its first `=`, and the part before
/// the `=` must be `name`. A piece without `=` gives nothing.
pub open spec fn cookie_pair_value(piece: Seq<char>, name: Seq<char>) -> Option<Seq<char>> {
    let t = trim(piece);
    let e = first_index_of(t, '=');
    if e < t.len() && t.take(e as int) == name {
        Some(t.skip(e + 1int))
    } else {
        None
    }
}

/// The value of the first piece of a `Cookie` header that names `name`.
pub open spec fn cookie_value(header: Seq<char>, name: Seq<char>) -> Option<Seq<char>>
    decreases header.len(),
{
    let k = first_index_of(header, ';');
    match cookie_pair_value(header.take(k as int), name) {
        Some(v) => Some(v),
        None => if k < header.len() {
            cookie_value(header.skip(k + 1int), name)
        } else {
            None
        },
    }
}

/// A cookie written as `name=value` is found under its name: the value is
/// everything after the first `=`.
pub proof fn lemma_cookie_pair(name: Seq<char>, value: Seq<char>)
    requires
        name.len() > 0,
        !is_white_space(name[0]),
        value.len() == 0 || !is_white_space(value.last()),
        !name.contains(';') && !name.contains('='),
        !value.contains(';'),
    ensures
        cookie_value(name + seq!['='] + value, name) == Some(value),
{
    let h = name + seq!['='] + value;
    assert forall|i: int| 0 <= i < h.len() implies h[i] != ';' by {
        if i < name.len() {
            assert(h[i] == name[i]);
        } else if i > name.len() {
            assert(h[i] == value[i - name.len() - 1]);
        }
    }
    lemma_first_index_of(h, ';', h.len() as int);
    assert(h.take(h.len() as int) == h);
    let last: int = if value.len() == 0 {
        name.len() as int
    } else {
        h.len() - 1
    };
    assert(!is_white_space(h[last])) by {
        if value.len() > 0 {
            assert(h[last] == value.last());
        }
    }
    lemma_trim_start(h, 0, 0, h.len() as int);
    lemma_trim_end(h, 0, h.len() as int, h.len() as int);
    assert(h.subrange(0, h.len() as int) == h);
    assert(trim(h) == h);
    assert forall|i: int| 0 <= i < name.len() implies h[i] != '=' by {
        assert(h[i] == name[i]);
    }
    lemma_first_index_of(h, '=', name.len() as int);
    assert(h.take(name.len() as int) == name);
    assert(h.skip(name.len() + 1int) == value);
}

/// A piece of a `Cookie` header that does not name the cookie is passed
/// over: the lookup goes on after its `;`.
pub proof fn lemma_cookie_skip(piece: Seq<char>, rest: Seq<char>, name: Seq<char>)
    requires
        !piece.contains(';'),
        cookie_pair_value(piece, name) is None,
    ensures
        cookie_value(piece + seq![';'] + rest, name) == cookie_value(rest, name),
{
    let h = piece + seq![';'] + rest;
    assert forall|i: int| 0 <= i < piece.len() implies h[i] != ';' by {
        assert(h[i] == piece[i]);
    }
    lemma_first_index_of(h, ';', piece.len() as int);
    assert(h.take(piece.len() as int) == piece);
    assert(h.skip(piece.len() + 1int) == rest);
}

/// The session cookie that the site sets is found again, with the very
/// token, in the `Cookie` header that a browser sends back with it.
pub proof fn lemma_session_cookie_found(token: Seq<char>)
    requires
        is_token_text(token),
    ensures
        cookie_value("refresh_token="@ + token, "refresh_token"@) == Some(token),
{
    let name = "refresh_token"@;
    reveal_strlit("refresh_token");
    reveal_strlit("refresh_token=");
    assert("refresh_token="@ == name + seq!['=']);
    assert(!name.contains(';'));
    assert(!name.contains('='));
    assert forall|i: int| 0 <= i < token.len() implies token[i] != ';' by {
        assert(is_token_char(token[i]));
    }
    if token.len() > 0 {
        assert(is_token_char(token.last()));
    }
    lemma_cookie_pair(name, token);
    assert(name + seq!['='] + token == "refresh_token="@ + token);
}

/// Looks for `cookie_name` in the value of a `Cookie` header
/// (`name=value; name2=value2`) and gives the value of its first occurrence.
pub fn find_cookie_value(cookies: &str, cookie_name: &str) -> (r: Option<String>)
    ensures
        option_string_view(r) == cookie_value(cookies@, cookie_name@),
{
    let v = chars_of(cookies);
    let name = chars_of(cookie_name);
    let n = v.len();
    let mut start: usize = 0;
    assert(v@.skip(0) =~= v@);
    loop
        invariant
            v@ == cookies@,
            name@ == cookie_name@,
            n == v.len(),
            start <= n,
            cookie_value(cookies@, cookie_name@) == cookie_value(v@.skip(start as int), name@),
        decreases n - start,
    {
        let ghost rest = v@.skip(start as int);
        // end of this piece
        let mut k = start;
        while k < n && v[k] != ';'
            invariant
                start <= k <= n,
                n == v.len(),
                forall|i: int| start <= i < k ==> v@[i] != ';',
            decreases n - k,
        {
            k = k + 1;
        }
        proof {
            lemma_first_index_of(rest, ';', k - start);
            assert(rest.take(k - start) == v@.subrange(start as int, k as int));
        }
        // trim the piece
        let mut a = start;
        while a < k && white_space(v[a])
            invariant
                start <= a <= k <= n,
                n == v.len(),
                forall|i: int| start <= i < a ==> is_white_space(v@[i]),
            decreases k - a,
        {
            a = a + 1;
        }
        let mut b = k;
        while b > a && white_space(v[b - 1])
            invariant
                a <= b <= k <= n,
                n == v.len(),
                forall|i: int| b <= i < k ==> is_white_space(v@[i]),
            decreases b - a,
        {
            b = b - 1;
        }
        let ghost t = v@.subrange(a as int, b as int);
        proof {
            lemma_trim_start(v@, start as int, a as int, k as int);
            lemma_trim_end(v@, a as int, b as int, k as int);
            assert(trim(v@.subrange(start as int, k as int)) == t);
        }
        // split at the first '='
        let mut e = a;
        while e < b && v[e] != '='
            invariant
                a <= e <= b <= n,
                n == v.len(),
                forall|i: int| a <= i < e ==> v@[i] != '=',
            decreases b - e,
        {
            e = e + 1;
        }
        proof {
            lemma_first_index_of(t, '=', e - a);
            assert(t.take(e - a) == v@.subrange(a as int, e as int));
        }
        if e < b && range_equals(&v, a, e, &name) {
            let value = string_of_range(&v, e + 1, b);
            assert(t.skip(e - a + 1) == v@.subrange(e + 1, b as int));
            return Some(value);
        }
        if k == n {
            return None;
        }
        assert(rest.skip(k - start + 1) == v@.skip(k + 1));
        start = k + 1;
    }
}

/// What the guard does with a request.
#[derive(Debug)]
pub enum UserApiAccess {
    /// Pass the request on, with the claims of its session attached.
    Forward(Claims),
    /// Answer at once with this cookie and body.
    Refuse(SessionCookie, ErrorDb),
}

/// The answer to a request without a usable session: the session cookie
/// emptied, and the body `{"error":false}`.
pub open spec fn is_refusal(a: UserApiAccess) -> bool {
    match a {
        UserApiAccess::Refuse(cookie, body) => is_session_cookie(cookie, Seq::<char>::empty())
            && body == ErrorDb { error: false },
        UserApiAccess::Forward(_) => false,
    }
}

fn refusal() -> (r: UserApiAccess)
    ensures
        is_refusal(r),
{
    UserApiAccess::Refuse(create_cookie_auth_clear(), ErrorDb { error: false })
}

/// The guard's decision on what checking the session token gave (`None`
/// where the request has no token): requests of a session whose user has
/// chosen at least one dictionary go on; all others are refused.
pub fn user_api_decision(checked: Option<Result<Claims, bool>>) -> (r: UserApiAccess)
    ensures
        match checked {
            Some(Ok(c)) => if c.user_dictionaries@.len() > 0 {
                r == UserApiAccess::Forward(c)
            } else {
                is_refusal(r)
            },
            _ => is_refusal(r),
        },
{
    match checked {
        Some(Ok(claim)) => {
            if claim.user_dictionaries.len() > 0 {
                UserApiAccess::Forward(claim)
            } else {
                refusal()
            }
        },
        _ => refusal(),
    }
}

/// The guard in front of `/api/userspace`.
pub struct CheckUserApi;

/// The guard around the service `S` that it protects.
pub struct CheckUserApiMiddleware<S> {
    service: Rc<S>,
}

impl CheckUserApi {
    /// Puts the guard around `service`.
    pub fn new_transform<S>(&self, service: S) -> (r: CheckUserApiMiddleware<S>)
        ensures
            r.protects(service),
    {
        CheckUserApiMiddleware { service: Rc::new(service) }
    }
}

impl<S> CheckUserApiMiddleware<S> {
    pub closed spec fn protects(&self, service: S) -> bool {
        *self.service == service
    }

    /// The service behind the guard.
    pub fn service(&self) -> (r: &Rc<S>)
        ensures
            self.protects(**r),
    {
        &self.service
    }

    /// The decision for a request with this `Cookie` header at the time
    /// `now`: it needs a `refresh_token` cookie whose token
    /// [`validate_token_at`] accepts at `now` and whose user has chosen a
    /// dictionary; the request then goes on with the claims of the token.
    /// A session that the site opened with `create_token` goes on with the
    /// very claims it was opened with exactly when its user has a dictionary
    /// and its expiry lies after `now`.
    pub fn decide_at(&self, cookie_header: Option<&str>, now: i64) -> (r: UserApiAccess)
        ensures
            match guard_decision(option_str_view(cookie_header), now) {
                Some(cv) => r matches UserApiAccess::Forward(c) && c@ == cv,
                None => is_refusal(r),
            },
            cookie_header matches Some(h) ==> (cookie_value(h@, "refresh_token"@) matches Some(
                token,
            ) ==> forall|cv: ClaimsView|
                #![trigger jwt_encoded(claims_json(cv), token_secret())]
                jwt_encoded(claims_json(cv), token_secret()) == Some(token) ==> ((r is Forward
                    <==> (cv.2.len() > 0 && cv.4 > (now as u64))) && (r matches UserApiAccess::Forward(
                    c,
                ) ==> c@ == cv))),
    {
        match cookie_header {
            None => refusal(),
            Some(h) => match find_cookie_value(h, "refresh_token") {
                None => refusal(),
                Some(token) => {
                    let checked = validate_token_at(token, now);
                    user_api_decision(Some(checked))
                },
            },
        }
    }

    /// The decision for a request with this `Cookie` header, as
    /// [`Self::decide_at`] takes it at the time that the system clock reads.
    /// A request is passed on only with the claims of a token signed with
    /// the site's secret whose user has chosen a dictionary, and a token that
    /// `create_token` made is passed on with the very claims it was made with.
    pub fn decide(&self, cookie_header: Option<&str>) -> (r: UserApiAccess)
        ensures
            exists|now: i64|
                #![trigger guard_decision(option_str_view(cookie_header), now)]
                match guard_decision(option_str_view(cookie_header), now) {
                    Some(cv) => r matches UserApiAccess::Forward(c) && c@ == cv,
                    None => is_refusal(r),
                },
            match cookie_header {
                None => is_refusal(r),
                Some(h) => match cookie_value(h@, "refresh_token"@) {
                    None => is_refusal(r),
                    Some(token) => match r {
                        UserApiAccess::Forward(c) => c.user_dictionaries@.len() > 0
                            && (jwt_verified_claims(token, token_secret()) matches Some(p)
                            && read_claims(p) == Some(c@)) && forall|
                            cv: ClaimsView,
                        |
                            #![trigger jwt_encoded(claims_json(cv), token_secret())]
                            jwt_encoded(claims_json(cv), token_secret()) == Some(token) ==> c@
                                == cv,
                        UserApiAccess::Refuse(_, _) => is_refusal(r),
                    },
                },
            },
    {
        let now = now_timestamp();
        self.decide_at(cookie_header, now)
    }
}

/// The contents of an optional string slice.
pub open spec fn option_str_view(o: Option<&str>) -> Option<Seq<char>> {
    match o {
        Some(s) => Some(s@),
        None => None,
    }
}

/// The claims that the guard passes a request on with, at the time `now`
/// (`None` where it refuses the request): those of the `refresh_token`
/// cookie's token, where the token checks and its user has a dictionary.
pub open spec fn guard_decision(cookie_header: Option<Seq<char>>, now: i64) -> Option<ClaimsView> {
    match cookie_header {
        None => None,
        Some(h) => match cookie_value(h, "refresh_token"@) {
            None => None,
            Some(token) => match token_check(jwt_verified_claims(token, token_secret()), now) {
                Some(c) => if c.2.len() > 0 {
                    Some(c)
                } else {
                    None
                },
                None => None,
            },
        },
    }
}

} // verus!
