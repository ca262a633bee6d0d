use easy_english::check_user_api_middleware::{user_api_decision, CheckUserApi, UserApiAccess};
use easy_english::jwt::{
    check_decoded_token, check_expiry, claims_from_json, claims_to_json, create_token, new_claims, read_payload,
    token_for_claims, validate_token, Claims, TOKEN_EXP,
};
use easy_english::models::UserDictionary;

fn dict(id: i32, name: &str, lang: i32) -> UserDictionary {
    UserDictionary { id, language_name: name.to_string(), language_id: lang }
}

fn sample_claims(dicts: Vec<UserDictionary>) -> Claims {
    new_claims(12, "Олена \"O\\\n\u{1}".to_string(), true, dicts, 1)
}

#[test]
fn payload_json_text() {
    let c = sample_claims(vec![dict(1, "English", 2), dict(-4, "Svenska", 3)]);
    assert_eq!(
        claims_to_json(&c),
        "{\"user_id\":12,\"user_name\":\"Олена \\\"O\\\\\\n\\u0001\",\"user_dictionaries\":[{\"id\":1,\"language_name\":\"English\",\"language_id\":2},{\"id\":-4,\"language_name\":\"Svenska\",\"language_id\":3}],\"admin\":true,\"exp\":10000000000,\"current_lang_index\":1}"
    );
}

#[test]
fn payload_json_is_what_serde_reads() {
    let c = sample_claims(vec![dict(1, "English", 2)]);
    let v: serde_json::Value = serde_json::from_str(&claims_to_json(&c)).unwrap();
    assert_eq!(v["user_name"], "Олена \"O\\\n\u{1}");
    assert_eq!(v["exp"], 10000000000u64);
    assert_eq!(v["user_dictionaries"][0]["language_name"], "English");
    assert_eq!(v["admin"], true);
}

#[test]
fn payload_reads_back() {
    let c = sample_claims(vec![dict(1, "English", 2), dict(5, "", -7)]);
    let back = claims_from_json(&claims_to_json(&c)).unwrap();
    assert_eq!(back.user_id, 12);
    assert_eq!(back.user_name, c.user_name);
    assert_eq!(back.user_dictionaries.len(), 2);
    assert_eq!(back.user_dictionaries[1].language_id, -7);
    assert_eq!(back.user_dictionaries[1].language_name, "");
    assert!(back.admin);
    assert_eq!(back.exp, TOKEN_EXP);
    assert_eq!(back.current_lang_index, 1);
    let empty = sample_claims(vec![]);
    assert_eq!(claims_from_json(&claims_to_json(&empty)).unwrap().user_dictionaries.len(), 0);
}

#[test]
fn payload_in_other_form_is_refused() {
    assert!(claims_from_json("{}").is_none());
    let c = sample_claims(vec![]);
    let text = claims_to_json(&c);
    assert!(claims_from_json(&text.replace(":12,", ": 12,")).is_none());
    assert!(claims_from_json(&text.replace(":12,", ":012,")).is_none());
    assert!(claims_from_json(&format!("{} ", text)).is_none());
}

#[test]
fn token_of_create_token_validates() {
    let token = create_token(3, "bob".to_string(), false, vec![dict(1, "English", 2)], 0);
    assert_eq!(token.split('.').count(), 3);
    let claims = validate_token(token).unwrap();
    assert_eq!(claims.user_id, 3);
    assert_eq!(claims.user_name, "bob");
    assert!(!claims.admin);
    assert_eq!(claims.exp, TOKEN_EXP);
    assert_eq!(claims.user_dictionaries[0].language_name, "English");
    assert_eq!(claims.current_lang_index, 0);
}

#[test]
fn token_decodes_with_jsonwebtoken() {
    let token = create_token(3, "bob".to_string(), false, vec![], 0);
    let data = jsonwebtoken::decode::<serde_json::Value>(
        &token,
        &jsonwebtoken::DecodingKey::from_secret(b"secret"),
        &jsonwebtoken::Validation::default(),
    )
    .unwrap();
    assert_eq!(data.claims["user_id"], 3);
    assert_eq!(data.claims["user_name"], "bob");
}

#[test]
fn foreign_tokens_are_refused() {
    assert!(matches!(validate_token("garbage".to_string()), Err(false)));
    let c = new_claims(1, "a".to_string(), false, vec![], 0);
    let payload: serde_json::Value = serde_json::from_str(&claims_to_json(&c)).unwrap();
    let other = jsonwebtoken::encode(
        &jsonwebtoken::Header::default(),
        &payload,
        &jsonwebtoken::EncodingKey::from_secret(b"other"),
    )
    .unwrap();
    assert!(matches!(validate_token(other), Err(false)));
}

#[test]
fn expiry_is_checked() {
    let c = new_claims(1, "a".to_string(), false, vec![], 0);
    assert!(check_expiry(c, 9_999_999_999).is_ok());
    let c = new_claims(1, "a".to_string(), false, vec![], 0);
    assert!(matches!(check_expiry(c, 10_000_000_000), Err(false)));
    let c = new_claims(1, "a".to_string(), false, vec![], 0);
    assert!(matches!(check_expiry(c, -1), Err(false)));
}

#[test]
fn decoded_token_is_checked() {
    assert!(matches!(check_decoded_token(None, 0), Err(false)));
    let c = new_claims(1, "a".to_string(), false, vec![], 0);
    let p = claims_to_json(&c);
    assert_eq!(check_decoded_token(Some(p.clone()), 5).unwrap().user_id, 1);
    assert!(matches!(check_decoded_token(Some(p), 20_000_000_000), Err(false)));
    assert!(matches!(check_decoded_token(Some("{\"x\":1}".to_string()), 5), Err(false)));
}

#[test]
fn guard_needs_a_dictionary() {
    let with = new_claims(1, "a".to_string(), false, vec![dict(1, "English", 2)], 0);
    assert!(matches!(user_api_decision(Some(Ok(with))), UserApiAccess::Forward(_)));
    let without = new_claims(1, "a".to_string(), false, vec![], 0);
    match user_api_decision(Some(Ok(without))) {
        UserApiAccess::Refuse(cookie, body) => {
            assert_eq!(cookie.name, "refresh_token");
            assert_eq!(cookie.value, "");
            assert_eq!(cookie.path, "/");
            assert!(cookie.http_only);
            assert!(!body.error);
        }
        UserApiAccess::Forward(_) => panic!("expected a refusal"),
    }
    assert!(matches!(user_api_decision(Some(Err(false))), UserApiAccess::Refuse(_, _)));
    assert!(matches!(user_api_decision(None), UserApiAccess::Refuse(_, _)));
}

#[test]
fn guard_reads_the_session_cookie() {
    let guard = CheckUserApi.new_transform(());
    let token = token_for_claims(&new_claims(8, "c".to_string(), false, vec![dict(1, "English", 2)], 0));
    let header = format!("theme=dark; refresh_token={}", token);
    match guard.decide(Some(&header)) {
        UserApiAccess::Forward(c) => assert_eq!(c.user_id, 8),
        UserApiAccess::Refuse(_, _) => panic!("expected the request to go on"),
    }
    assert!(matches!(guard.decide(None), UserApiAccess::Refuse(_, _)));
    assert!(matches!(guard.decide(Some("theme=dark")), UserApiAccess::Refuse(_, _)));
    let no_dict = token_for_claims(&new_claims(8, "c".to_string(), false, vec![], 0));
    assert!(matches!(guard.decide(Some(&format!("refresh_token={}", no_dict))), UserApiAccess::Refuse(_, _)));
}

#[test]
fn tokens_are_written_in_url_safe_characters() {
    let c = sample_claims(vec![dict(1, "English", 2)]);
    let token = token_for_claims(&c);
    assert_eq!(token.split('.').count(), 3);
    assert!(token
        .chars()
        .all(|ch| ch.is_ascii_alphanumeric() || ch == '-' || ch == '_' || ch == '.'));
    let cookie = easy_english::cookie::create_cookie_auth(&c);
    let header = format!("refresh_token={}", cookie.value);
    assert_eq!(
        easy_english::check_user_api_middleware::find_cookie_value(&header, "refresh_token"),
        Some(token)
    );
}

#[test]
fn tokens_have_the_default_header_and_three_parts() {
    let token = create_token(5, "u".to_string(), false, vec![dict(1, "English", 2)], 0);
    let parts: Vec<&str> = token.split('.').collect();
    assert_eq!(parts.len(), 3);
    assert_eq!(parts[0], "eyJ0eXAiOiJKV1QiLCJhbGciOiJIUzI1NiJ9");
    assert_eq!(parts[2].len(), 43);
}

#[test]
fn forged_tokens_are_refused() {
    let token = create_token(5, "u".to_string(), false, vec![dict(1, "English", 2)], 0);
    assert!(validate_token(token.clone()).is_ok());
    let (message, signature) = token.rsplit_once('.').unwrap();
    let first = if signature.starts_with('A') { 'B' } else { 'A' };
    let forged = format!("{}.{}{}", message, first, &signature[1..]);
    assert_eq!(validate_token(forged).err(), Some(false));
}

#[test]
fn malformed_tokens_are_refused() {
    assert_eq!(validate_token("not.a.token".to_string()).err(), Some(false));
    assert_eq!(validate_token(String::new()).err(), Some(false));
}

#[test]
fn payload_in_any_json_form_is_read() {
    let c = sample_claims(vec![]);
    let text = claims_to_json(&c);
    assert_eq!(read_payload(&text.replace(":12,", ": 12,")).unwrap().user_id, 12);
    assert!(read_payload(&text.replace(":12,", ":012,")).is_none());
    let reordered = "{ \"exp\": 99, \"admin\": false, \"extra\": [1, {\"x\": null}],
        \"user_dictionaries\": [{\"language_id\": 2, \"language_name\": \"Eng\\u006cish\", \"id\": 1}, [4, \"Svenska\", 3]],
        \"current_lang_index\": 1, \"user_name\": \"b\\/o\", \"user_id\": -7 }";
    let r = read_payload(reordered).unwrap();
    assert_eq!(r.user_id, -7);
    assert_eq!(r.user_name, "b/o");
    assert_eq!(r.exp, 99);
    assert!(!r.admin);
    assert_eq!(r.current_lang_index, 1);
    assert_eq!(r.user_dictionaries.len(), 2);
    assert_eq!(r.user_dictionaries[0].language_name, "English");
    assert_eq!(r.user_dictionaries[1].id, 4);
    assert_eq!(r.user_dictionaries[1].language_id, 3);
    let as_array = "[5, \"n\", [], true, 10, 0]";
    assert_eq!(read_payload(as_array).unwrap().user_id, 5);
    assert!(read_payload("{\"user_id\": 1}").is_none());
    assert!(read_payload("[5, \"n\", [], true, 10]").is_none());
    assert!(read_payload(&reordered.replace("-7", "1.5")).is_none());
}

#[test]
fn token_with_reordered_claims_validates() {
    let payload: serde_json::Value = serde_json::from_str(
        "{\"current_lang_index\":0,\"exp\":10000000000,\"admin\":true,\"user_dictionaries\":[],\"user_name\":\"z\",\"user_id\":9}",
    )
    .unwrap();
    let token = jsonwebtoken::encode(
        &jsonwebtoken::Header::default(),
        &payload,
        &jsonwebtoken::EncodingKey::from_secret(b"secret"),
    )
    .unwrap();
    let c = validate_token(token).unwrap();
    assert_eq!(c.user_id, 9);
    assert!(c.admin);
}
