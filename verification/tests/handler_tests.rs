use easy_english::controllers::api_controller::{login_step, session_reply, LoginStep};
use easy_english::controllers::api_user_controller::{
    current_lang_index, gpt_translate_prompt, gpt_translate_reply, with_current_lang,
};
use easy_english::controllers::object_of_controller::{RequestResult, ResultGptTranslate};
use easy_english::controllers::view_controller::learn_main_template;
use easy_english::cookie::{create_cookie_auth, create_cookie_auth_clear};
use easy_english::jwt::{new_claims, validate_token};
use easy_english::models::{MyError, UserDictionary};

fn dict(id: i32, name: &str, lang: i32) -> UserDictionary {
    UserDictionary { id, language_name: name.to_string(), language_id: lang }
}

#[test]
fn login_steps() {
    assert!(matches!(login_step(-1), LoginStep::Reply(RequestResult { status: false })));
    assert!(matches!(login_step(4), LoginStep::LoadDictionaries(4)));
    assert!(matches!(login_step(0), LoginStep::LoadDictionaries(0)));
}

#[test]
fn session_reply_carries_a_valid_token() {
    let reply = session_reply(4, "ann".to_string(), false, vec![dict(1, "English", 2)]);
    assert!(reply.result.status);
    assert_eq!(reply.cookie.name, "refresh_token");
    assert_eq!(reply.cookie.path, "/");
    assert!(reply.cookie.http_only);
    let claims = validate_token(reply.cookie.value.clone()).unwrap();
    assert_eq!(claims.user_id, 4);
    assert_eq!(claims.current_lang_index, 0);
}

#[test]
fn switching_language() {
    let dicts = vec![dict(1, "English", 2), dict(2, "Svenska", 3), dict(3, "Svenska", 4)];
    assert_eq!(current_lang_index(&dicts, "Svenska"), 1);
    assert_eq!(current_lang_index(&dicts, "English"), 0);
    assert_eq!(current_lang_index(&dicts, "Deutsch"), 0);
    assert_eq!(current_lang_index(&vec![], "Deutsch"), 0);
    let c = new_claims(1, "a".to_string(), false, dicts, 0);
    let c = with_current_lang(c, "Svenska");
    assert_eq!(c.current_lang_index, 1);
    assert_eq!(c.user_dictionaries.len(), 3);
}

#[test]
fn learning_page_shows_current_language() {
    let c = new_claims(1, "a".to_string(), false, vec![dict(1, "English", 2), dict(2, "Svenska", 3)], 1);
    let t = learn_main_template(&c);
    assert_eq!(t.current_lang, "Svenska");
    assert_eq!(t.languages.len(), 2);
    assert_eq!(t.languages[0].language_name, "English");
}

#[test]
fn translation_prompt_text() {
    let q = gpt_translate_prompt("шведською", "українською", "Привіт", "вітання");
    let expected = format!("Будь вчителем {} мови.
Відповідайте лише у форматі JSON із такими даними:
{{
      \"sentence:\"\",
      \"explanation\":\"\"
}}
Як сказати моє речення {} мовою, розмовною {} мовою, щоб передати той самий зміст, та сенс. Моє речення написане {} мовою: \"{}\".
Я також наведу вам значення речення, яке я хотів передати: \"{}\".
У відповідь:
Поле \"sentence\" має містити твоє речення яке ти створив. Поле \"explanation\" повинно містити коротке пояснення вашого стовреного речення, твоє поясення має бути написано {} мовою.",
        "шведською", "шведською", "шведською", "українською", "Привіт", "вітання", "українською");
    assert_eq!(q, expected);
}

#[test]
fn translation_reply_on_failure() {
    let r = gpt_translate_reply(Err(MyError::SiteError("x".to_string())));
    assert_eq!(r.sentence, "Error, please try again");
    assert_eq!(r.explanation, "Error, please try again");
    let ok = gpt_translate_reply(Ok(ResultGptTranslate { sentence: "t".to_string(), explanation: "e".to_string() }));
    assert_eq!(ok.sentence, "t");
    assert_eq!(ok.explanation, "e");
}

#[test]
fn session_cookies() {
    let cleared = create_cookie_auth_clear();
    assert_eq!(cleared.name, "refresh_token");
    assert_eq!(cleared.value, "");
    assert_eq!(cleared.path, "/");
    assert!(cleared.http_only);
    let c = new_claims(2, "b".to_string(), true, vec![dict(1, "English", 2)], 0);
    let cookie = create_cookie_auth(&c);
    assert_ne!(cookie.value, "");
    assert!(validate_token(cookie.value.clone()).unwrap().admin);
}
