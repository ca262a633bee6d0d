//! Session tokens: the claims that a token carries, the JSON text of its
//! payload, and the signing and checking of tokens with `jsonwebtoken`.

use vstd::prelude::*;
use vstd::string::StringSliceAdditionalSpecFns;
use crate::models::{UserDictionary, copy_dictionaries};
use crate::text::{
    chars_of, dec_int, dec_nat, option_string_view, push_char, push_dec_i32, push_dec_u64,
    push_dec_usize, push_str,
};
use crate::claims_parser::{claims_at, lemma_claims_roundtrip, parse_claims};
use crate::json_claims::{claims_from_value, claims_of_value};

verus! {

/// What a session token says about its holder.
#[derive(Debug)]
pub struct Claims {
    pub user_id: i32,
    pub user_name: String,
    pub user_dictionaries: Vec<UserDictionary>,
    pub admin: bool,
    /// Expiry, in seconds since the epoch (a `u64`, as `usize` is on the
    /// 64-bit targets the service runs on).
    pub exp: u64,
    /// Index into `user_dictionaries` of the language that the user learns now.
    pub current_lang_index: usize,
}

/// The fields of a `Claims`, with strings and lists by their contents.
pub type ClaimsView = (i32, Seq<char>, Seq<(i32, Seq<char>, i32)>, bool, u64, usize);

impl View for Claims {
    type V = ClaimsView;

    open spec fn view(&self) -> ClaimsView {
        (
            self.user_id,
            self.user_name@,
            self.user_dictionaries@.map_values(|d: UserDictionary| d@),
            self.admin,
            self.exp,
            self.current_lang_index,
        )
    }
}

impl Claims {
    /// A copy with the same fields.
    pub fn copy(&self) -> (r: Claims)
        ensures
            r@ == self@,
    {
        let d = copy_dictionaries(&self.user_dictionaries);
        let r = Claims {
            user_id: self.user_id,
            user_name: self.user_name.clone(),
            user_dictionaries: d,
            admin: self.admin,
            exp: self.exp,
            current_lang_index: self.current_lang_index,
        };
        assert(r@.2 =~= self@.2);
        r
    }
}

/// The expiry time that every token is made with (seconds since the epoch).
pub const TOKEN_EXP: u64 = 10000000000;

/// The HMAC secret that tokens are signed with.
pub open spec fn token_secret() -> Seq<u8> {
    "secret".spec_bytes()
}

/// A lower-case hexadecimal digit.
pub open spec fn hex_digit(d: int) -> char {
    if d < 10 {
        (d + 48) as char
    } else {
        (d + 87) as char
    }
}

/// How one character stands inside a JSON string: quote and backslash
/// escaped, the control characters as `\b \f \n \r \t` or `\u00XX`, all
/// other characters as they are.
pub open spec fn json_escape_char(c: char) -> Seq<char> {
    if c == '"' {
        seq!['\\', '"']
    } else if c == '\\' {
        seq!['\\', '\\']
    } else if c == '\n' {
        seq!['\\', 'n']
    } else if c == '\r' {
        seq!['\\', 'r']
    } else if c == '\t' {
        seq!['\\', 't']
    } else if c == '\u{8}' {
        seq!['\\', 'b']
    } else if c == '\u{c}' {
        seq!['\\', 'f']
    } else if (c as u32) < 0x20 {
        seq!['\\', 'u', '0', '0', hex_digit((c as u32 / 16) as int), hex_digit((c as u32 % 16) as int)]
    } else {
        seq![c]
    }
}

/// The characters of `s`, each as it stands inside a JSON string.
pub open spec fn json_escape(s: Seq<char>) -> Seq<char>
    decreases s.len(),
{
    if s.len() == 0 {
        seq![]
    } else {
        json_escape(s.drop_last()) + json_escape_char(s.last())
    }
}

/// `s` as a JSON string.
pub open spec fn json_string(s: Seq<char>) -> Seq<char> {
    seq!['"'] + json_escape(s) + seq!['"']
}

pub open spec fn json_bool(b: bool) -> Seq<char> {
    if b {
        "true"@
    } else {
        "false"@
    }
}

/// A dictionary as a JSON object.
pub open spec fn dictionary_json(d: (i32, Seq<char>, i32)) -> Seq<char> {
    "{\"id\":"@ + dec_int(d.0 as int) + ",\"language_name\":"@ + json_string(d.1)
        + ",\"language_id\":"@ + dec_int(d.2 as int) + "}"@
}

/// The elements of a JSON array of dictionaries, separated by commas.
pub open spec fn dictionaries_json_items(ds: Seq<(i32, Seq<char>, i32)>) -> Seq<char>
    decreases ds.len(),
{
    if ds.len() == 0 {
        seq![]
    } else if ds.len() == 1 {
        dictionary_json(ds[0])
    } else {
        dictionaries_json_items(ds.drop_last()) + ","@ + dictionary_json(ds.last())
    }
}

/// A JSON array of dictionaries.
pub open spec fn dictionaries_json(ds: Seq<(i32, Seq<char>, i32)>) -> Seq<char> {
    "["@ + dictionaries_json_items(ds) + "]"@
}

/// The payload of a token: the claims as a compact JSON object, with the
/// fields in the order of `Claims`.
pub open spec fn claims_json(c: ClaimsView) -> Seq<char> {
    "{\"user_id\":"@ + dec_int(c.0 as int) + ",\"user_name\":"@ + json_string(c.1)
        + ",\"user_dictionaries\":"@ + dictionaries_json(c.2) + ",\"admin\":"@ + json_bool(c.3)
        + ",\"exp\":"@ + dec_nat(c.4 as nat) + ",\"current_lang_index\":"@ + dec_nat(c.5 as nat)
        + "}"@
}

fn hex_of(d: u32) -> (c: char)
    requires
        d < 16,
    ensures
        c == hex_digit(d as int),
{
    if d < 10 {
        let b: u8 = (d as u8) + 48;
        b as char
    } else {
        let b: u8 = (d as u8) + 87;
        b as char
    }
}

fn push_json_char(out: &mut String, c: char)
    ensures
        final(out)@ == old(out)@ + json_escape_char(c),
{
    let ghost start = out@;
    if c == '"' {
        push_char(out, '\\');
        push_char(out, '"');
    } else if c == '\\' {
        push_char(out, '\\');
        push_char(out, '\\');
    } else if c == '\n' {
        push_char(out, '\\');
        push_char(out, 'n');
    } else if c == '\r' {
        push_char(out, '\\');
        push_char(out, 'r');
    } else if c == '\t' {
        push_char(out, '\\');
        push_char(out, 't');
    } else if c == '\u{8}' {
        push_char(out, '\\');
        push_char(out, 'b');
    } else if c == '\u{c}' {
        push_char(out, '\\');
        push_char(out, 'f');
    } else if (c as u32) < 0x20 {
        let u = c as u32;
        push_char(out, '\\');
        push_char(out, 'u');
        push_char(out, '0');
        push_char(out, '0');
        push_char(out, hex_of(u / 16));
        push_char(out, hex_of(u % 16));
    } else {
        push_char(out, c);
    }
    assert(out@ =~= start + json_escape_char(c));
}

/// Appends `s` as a JSON string.
pub fn push_json_string(out: &mut String, s: &str)
    ensures
        final(out)@ == old(out)@ + json_string(s@),
{
    let v = chars_of(s);
    let ghost start = out@;
    push_char(out, '"');
    let mut i: usize = 0;
    while i < v.len()
        invariant
            i <= v@.len(),
            out@ == start + seq!['"'] + json_escape(v@.take(i as int)),
        decreases v@.len() - i,
    {
        push_json_char(out, v[i]);
        proof {
            assert(v@.take(i + 1).drop_last() == v@.take(i as int));
        }
        i = i + 1;
    }
    push_char(out, '"');
    assert(v@.take(v@.len() as int) == v@);
    assert(out@ =~= start + json_string(s@));
}

fn push_dictionary_json(out: &mut String, d: &UserDictionary)
    ensures
        final(out)@ == old(out)@ + dictionary_json(d@),
{
    let ghost start = out@;
    push_str(out, "{\"id\":");
    push_dec_i32(out, d.id);
    push_str(out, ",\"language_name\":");
    push_json_string(out, d.language_name.as_str());
    push_str(out, ",\"language_id\":");
    push_dec_i32(out, d.language_id);
    push_str(out, "}");
    assert(out@ =~= start + dictionary_json(d@));
}

/// The JSON payload of a token that carries `claims`.
pub fn claims_to_json(claims: &Claims) -> (r: String)
    ensures
        r@ == claims_json(claims@),
{
    let mut out = String::new();
    push_str(&mut out, "{\"user_id\":");
    push_dec_i32(&mut out, claims.user_id);
    push_str(&mut out, ",\"user_name\":");
    push_json_string(&mut out, claims.user_name.as_str());
    push_str(&mut out, ",\"user_dictionaries\":");
    push_str(&mut out, "[");
    let ghost before = out@;
    let ghost ds = claims@.2;
    let mut i: usize = 0;
    while i < claims.user_dictionaries.len()
        invariant
            i <= claims.user_dictionaries@.len(),
            ds == claims.user_dictionaries@.map_values(|d: UserDictionary| d@),
            out@ == before + dictionaries_json_items(ds.take(i as int)),
        decreases claims.user_dictionaries@.len() - i,
    {
        if i > 0 {
            push_str(&mut out, ",");
        }
        push_dictionary_json(&mut out, &claims.user_dictionaries[i]);
        proof {
            assert(ds.take(i + 1).drop_last() == ds.take(i as int));
            assert(ds.take(i + 1).last() == claims.user_dictionaries@[i as int]@);
            if i == 0 {
                assert(ds.take(1) =~= seq![ds[0]]);
            }
        }
        i = i + 1;
    }
    proof {
        assert(ds.take(ds.len() as int) == ds);
    }
    push_str(&mut out, "]");
    push_str(&mut out, ",\"admin\":");
    if claims.admin {
        push_str(&mut out, "true");
    } else {
        push_str(&mut out, "false");
    }
    push_str(&mut out, ",\"exp\":");
    push_dec_u64(&mut out, claims.exp);
    push_str(&mut out, ",\"current_lang_index\":");
    push_dec_usize(&mut out, claims.current_lang_index);
    push_str(&mut out, "}");
    assert(out@ =~= claims_json(claims@));
    out
}

/// A character that a signed token is written with: the URL-safe base64
/// alphabet, and the dot that joins header, payload and signature.
pub open spec fn is_token_char(c: char) -> bool {
    let u = c as u32;
    ||| 0x41 <= u <= 0x5a
    ||| 0x61 <= u <= 0x7a
    ||| 0x30 <= u <= 0x39
    ||| u == 0x2d
    ||| u == 0x5f
    ||| u == 0x2e
}

/// A text made of token characters only.
pub open spec fn is_token_text(t: Seq<char>) -> bool {
    forall|i: int| 0 <= i < t.len() ==> #[trigger] is_token_char(t[i])
}

/// The first part of every token made with the default header: the base64url
/// form of `{"typ":"JWT","alg":"HS256"}`.
pub open spec fn default_header_segment() -> Seq<char> {
    "eyJ0eXAiOiJKV1QiLCJhbGciOiJIUzI1NiJ9"@
}

/// One dot-free part of a token.
pub open spec fn is_token_segment(t: Seq<char>) -> bool {
    forall|i: int| 0 <= i < t.len() ==> #[trigger] is_token_char(t[i]) && t[i] != '.'
}

/// The layout of a token signed with HS256 under the default header: the
/// default header part, a dot, the payload part, a dot, and the 43
/// characters of the base64url form of the 32-byte HMAC-SHA256 signature.
pub open spec fn is_hs256_token(t: Seq<char>) -> bool {
    let h: int = default_header_segment().len() as int;
    &&& t.len() >= h + 45
    &&& t.take(h) == default_header_segment()
    &&& t[h] == '.'
    &&& is_token_segment(t.subrange(h + 1, t.len() - 44))
    &&& t[t.len() - 44] == '.'
    &&& is_token_segment(t.skip(t.len() - 43))
}

/// Ends in a dot and the 43 characters of an HMAC-SHA256 signature part,
/// with the header and payload parts before it.
pub open spec fn has_hs256_signature(t: Seq<char>) -> bool {
    &&& t.len() >= 45
    &&& t[t.len() - 44] == '.'
    &&& is_token_segment(t.skip(t.len() - 43))
}

/// The token that `jsonwebtoken::encode` makes, with the default header
/// (HS256, type JWT), of the JSON text `payload` as the claims (as
/// `serde_json::value::RawValue` holds it: without white space around it),
/// under the HMAC secret `secret`; `None` where `payload` is not one JSON
/// value.
pub uninterp spec fn jwt_encoded(payload: Seq<char>, secret: Seq<u8>) -> Option<Seq<char>>;

/// The claims text of a token that `jsonwebtoken::decode` accepts under the
/// HMAC secret `secret` with `Validation::default()` but with the expiry
/// left unchecked: the token is three dot-separated parts, its header names
/// HS256 (the algorithm that validation admits), the signature verifies, the
/// base64url-decoded middle part is one JSON value, which `serde_json` reads
/// into a `RawValue` (without white space around it), with an `exp` that
/// reads as an unsigned number and none of the other checks of that
/// validation (such as an `aud` member, which it refuses) failing. `None`
/// otherwise.
pub uninterp spec fn jwt_verified_claims(token: Seq<char>, secret: Seq<u8>) -> Option<Seq<char>>;

/// Calls `jsonwebtoken::encode` with `Header::default()` on the payload as a
/// `serde_json::value::RawValue` (which `RawValue::from_string` makes, or
/// refuses where the text is not JSON) and `EncodingKey::from_secret`.
/// Claimed: the result is `jwt_encoded` of the arguments; `encode` signs with
/// HMAC-SHA256 and base64url, so it depends on its arguments alone. Also
/// claimed: a token is written in token characters, as `encode` joins three
/// parts, each encoded with `URL_SAFE_NO_PAD`, with dots: the default
/// header, which serialises to `{"typ":"JWT","alg":"HS256"}`, the payload,
/// and the 32-byte signature. Also claimed: a payload that `claims_json`
/// writes gives a token. Such a text is one JSON object (its strings escape
/// quotes, backslashes and control characters), so `RawValue::from_string`
/// takes it; and `encode` with an HMAC key under the HS256 header cannot fail
/// (the family check passes, serialising a header or a raw value cannot fail,
/// and HMAC signing is infallible).
#[verifier::external_body]
fn jwt_encode(payload: String, secret: &[u8]) -> (r: Option<String>)
    ensures
        option_string_view(r) == jwt_encoded(payload@, secret@),
        r matches Some(t) ==> is_token_text(t@) && is_hs256_token(t@),
        payload_claims(payload@) is Some ==> r is Some,
{
    let raw = match serde_json::value::RawValue::from_string(payload) {
        Ok(raw) => raw,
        Err(_) => return None,
    };
    let key = jsonwebtoken::EncodingKey::from_secret(secret);
    match jsonwebtoken::encode(&jsonwebtoken::Header::default(), &raw, &key) {
        Ok(token) => Some(token),
        Err(_) => None,
    }
}

/// The claims of a new session.
pub fn new_claims(
    user_id: i32,
    user_name: String,
    admin: bool,
    user_dictionaries: Vec<UserDictionary>,
    current_lang_index: usize,
) -> (r: Claims)
    ensures
        r.user_id == user_id,
        r.user_name == user_name,
        r.admin == admin,
        r.user_dictionaries == user_dictionaries,
        r.exp == TOKEN_EXP,
        r.current_lang_index == current_lang_index,
{
    Claims {
        user_id,
        user_name,
        admin,
        exp: TOKEN_EXP,
        user_dictionaries,
        current_lang_index,
    }
}

/// The token of a new session: the claims with the fixed expiry
/// [`TOKEN_EXP`], signed with the site's secret.
pub fn create_token(
    user_id_: i32,
    user_name_: String,
    admin_: bool,
    user_dictionaries_: Vec<UserDictionary>,
    current_lang_index_: usize,
) -> (r: String)
    ensures
        jwt_encoded(
            claims_json(
                (
                    user_id_,
                    user_name_@,
                    user_dictionaries_@.map_values(|d: UserDictionary| d@),
                    admin_,
                    TOKEN_EXP,
                    current_lang_index_,
                ),
            ),
            token_secret(),
        ) == Some(r@),
        is_token_text(r@),
        is_hs256_token(r@),
{
    let my_claims = new_claims(user_id_, user_name_, admin_, user_dictionaries_, current_lang_index_);
    token_for_claims(&my_claims)
}

/// The token that carries `claims`, signed with the site's secret.
pub fn token_for_claims(claims: &Claims) -> (r: String)
    ensures
        jwt_encoded(claims_json(claims@), token_secret()) == Some(r@),
        is_token_text(r@),
        is_hs256_token(r@),
{
    let payload = claims_to_json(claims);
    proof {
        lemma_payload_roundtrip(claims@);
    }
    let token = jwt_encode(payload, "secret".as_bytes());
    token.unwrap()
}

/// Calls `jsonwebtoken::decode` on `token` with `DecodingKey::from_secret`
/// and `Validation::default()` with `validate_exp` switched off (HS256, an
/// `exp` required), asking for the claims as a `serde_json::value::RawValue`,
/// and gives their JSON text. The expiry is checked by the caller against the
/// clock, after this call: the default check (`exp` not more than 60 s in the
/// past) is implied by the caller's (`exp` in the future).
/// Claimed: the result is `jwt_verified_claims` of the token and the secret;
/// with the expiry unchecked, `decode` reads no clock and depends on its
/// arguments alone.
/// Also claimed: a token that `jwt_encoded` made under the same secret from
/// a payload that `claims_json` writes decodes to that very text: the
/// signature verifies, the raw value keeps the text (a JSON object text has
/// no white space around it), its `exp` is an unsigned number, and it has no
/// `aud`, `iss`, `sub` or `nbf` member.
/// Also claimed: a token that decodes ends in a dot and a 43-character
/// signature part, as `decode` admits HS256 alone, splits the signature off
/// at the last dot, and compares it with the 43-character base64url form of
/// the HMAC-SHA256 it computes.
#[verifier::external_body]
fn jwt_decode(token: &str, secret: &[u8]) -> (r: Option<String>)
    ensures
        option_string_view(r) == jwt_verified_claims(token@, secret@),
        r is Some ==> has_hs256_signature(token@),
        forall|p: Seq<char>|
            #![trigger jwt_encoded(p, secret@)]
            payload_claims(p) is Some && jwt_encoded(p, secret@) == Some(token@)
                ==> option_string_view(r) == Some(p),
{
    let key = jsonwebtoken::DecodingKey::from_secret(secret);
    let mut validation = jsonwebtoken::Validation::default();
    validation.validate_exp = false;
    match jsonwebtoken::decode::<Box<serde_json::value::RawValue>>(token, &key, &validation) {
        Ok(data) => Some(data.claims.get().to_string()),
        Err(_) => None,
    }
}

/// Calls `chrono::Utc::now().timestamp()`: the seconds since the epoch by the
/// system clock. Nothing is claimed of the value.
#[verifier::external_body]
pub(crate) fn now_timestamp() -> i64 {
    chrono::Utc::now().timestamp()
}

/// Keeps claims whose expiry lies after `now` (seconds since the epoch,
/// converted to an unsigned number as the expiry is).
pub fn check_expiry(claims: Claims, now: i64) -> (r: Result<Claims, bool>)
    ensures
        claims.exp > (now as u64) ==> r == Ok::<Claims, bool>(claims),
        claims.exp <= (now as u64) ==> r == Err::<Claims, bool>(false),
{
    let now_u = now as u64;
    if claims.exp > now_u {
        Ok(claims)
    } else {
        Err(false)
    }
}

/// The claims that a payload text carries: those whose `claims_json` it is.
pub open spec fn payload_claims(p: Seq<char>) -> Option<ClaimsView> {
    match claims_at(p) {
        Some(c) => if claims_json(c) == p {
            Some(c)
        } else {
            None
        },
        None => None,
    }
}

/// Reading a payload gives back the claims that it was written from.
pub proof fn lemma_payload_roundtrip(c: ClaimsView)
    ensures
        payload_claims(claims_json(c)) == Some(c),
{
    lemma_claims_roundtrip(c);
}

pub open spec fn option_claims_view(o: Option<Claims>) -> Option<ClaimsView> {
    match o {
        Some(c) => Some(c@),
        None => None,
    }
}

/// The claims of a token payload text in the layout that `claims_to_json`
/// writes, read character by character; a JSON text of the same fields in
/// another form (reordered, with white space, with other escapes) gives
/// `None` here and is read by [`read_payload`].
pub fn claims_from_json(payload: &str) -> (r: Option<Claims>)
    ensures
        option_claims_view(r) == payload_claims(payload@),
{
    match parse_claims(payload) {
        None => None,
        Some(c) => {
            let back = claims_to_json(&c);
            if back == payload.to_owned() {
                Some(c)
            } else {
                None
            }
        },
    }
}

/// The claims that a token payload carries: those that the payload writes
/// in the library's own layout, else those of any JSON form of them that
/// `serde_json` reads (see `claims_of_value`).
pub open spec fn read_claims(p: Seq<char>) -> Option<ClaimsView> {
    match payload_claims(p) {
        Some(c) => Some(c),
        None => claims_of_value(p),
    }
}

/// Reading the payload that a token is written with gives back its claims.
pub proof fn lemma_read_claims_roundtrip(c: ClaimsView)
    ensures
        read_claims(claims_json(c)) == Some(c),
{
    lemma_payload_roundtrip(c);
}

/// Reads the claims of a token payload.
pub fn read_payload(payload: &str) -> (r: Option<Claims>)
    ensures
        option_claims_view(r) == read_claims(payload@),
{
    match claims_from_json(payload) {
        Some(c) => Some(c),
        None => claims_from_value(payload),
    }
}

/// The outcome of checking a token, given what decoding it gave (`None`
/// where `jsonwebtoken` refused it) and the time: the claims of the payload
/// where they have not expired, else `Err(false)`.
pub open spec fn token_check(payload: Option<Seq<char>>, now: i64) -> Option<ClaimsView> {
    match payload {
        None => None,
        Some(p) => match read_claims(p) {
            None => None,
            Some(c) => if c.4 > (now as u64) {
                Some(c)
            } else {
                None
            },
        },
    }
}

pub open spec fn result_claims_view(r: Result<Claims, bool>) -> Option<ClaimsView> {
    match r {
        Ok(c) => Some(c@),
        Err(_) => None,
    }
}

/// Checks a decoded token payload against the time `now`.
pub fn check_decoded_token(payload: Option<String>, now: i64) -> (r: Result<Claims, bool>)
    ensures
        result_claims_view(r) == token_check(option_string_view(payload), now),
        r is Err ==> r == Err::<Claims, bool>(false),
{
    match payload {
        None => Err(false),
        Some(p) => match read_payload(p.as_str()) {
            None => Err(false),
            Some(claims) => check_expiry(claims, now),
        },
    }
}

/// Checks a session token at the time `now` (seconds since the epoch): its
/// signature and claims (by `jsonwebtoken`), then its expiry. A refused
/// token gives `Err(false)`. A token that [`create_token`] made is accepted
/// exactly when its expiry lies after `now`, and then gives back the very
/// claims it was made with; accepted claims are always those of a token
/// signed with the site's secret, read from any JSON form of them.
pub fn validate_token_at(token: String, now: i64) -> (r: Result<Claims, bool>)
    ensures
        result_claims_view(r) == token_check(jwt_verified_claims(token@, token_secret()), now),
        r is Err ==> r == Err::<Claims, bool>(false),
        r is Ok ==> has_hs256_signature(token@),
        forall|c: ClaimsView|
            #![trigger jwt_encoded(claims_json(c), token_secret())]
            jwt_encoded(claims_json(c), token_secret()) == Some(token@) ==> (r is Ok <==> c.4 > (
            now as u64)) && (r is Ok ==> result_claims_view(r) == Some(c)),
{
    let payload = jwt_decode(token.as_str(), "secret".as_bytes());
    let r = check_decoded_token(payload, now);
    proof {
        assert forall|c: ClaimsView|
            #![trigger jwt_encoded(claims_json(c), token_secret())]
            jwt_encoded(claims_json(c), token_secret()) == Some(token@) implies (r is Ok <==> c.4
                > (now as u64)) && (r is Ok ==> result_claims_view(r) == Some(c)) by {
            lemma_payload_roundtrip(c);
            lemma_read_claims_roundtrip(c);
        }
    }
    r
}

/// Checks a session token against the system clock, as
/// [`validate_token_at`] does at the time that the clock reads. A refused
/// token gives `Err(false)`. A token that [`create_token`] made gives back
/// its claims, unless its expiry has passed by the clock.
pub fn validate_token(token: String) -> (r: Result<Claims, bool>)
    ensures
        exists|now: i64|
            result_claims_view(r) == token_check(jwt_verified_claims(token@, token_secret()), now),
        r is Err ==> r == Err::<Claims, bool>(false),
        r matches Ok(c) ==> (jwt_verified_claims(token@, token_secret()) matches Some(p)
            && read_claims(p) == Some(c@)),
        r is Ok ==> has_hs256_signature(token@),
        forall|c: ClaimsView|
            #![trigger jwt_encoded(claims_json(c), token_secret())]
            jwt_encoded(claims_json(c), token_secret()) == Some(token@) ==> (r is Err
                || result_claims_view(r) == Some(c)),
{
    let now = now_timestamp();
    let r = validate_token_at(token, now);
    proof {
        assert(result_claims_view(r) == token_check(
            jwt_verified_claims(token@, token_secret()),
            now,
        ));
    }
    r
}

} // verus!
