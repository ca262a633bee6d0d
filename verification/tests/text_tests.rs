use easy_english::gpt_module::{chat_request, ChatModel};
use easy_english::gpt_module::gpt_outcome;
use easy_english::models::MyError;
use easy_english::text::{chars_of, push_dec_i32, push_dec_u64, range_equals, string_of_range, white_space};

#[test]
fn decimal_notation() {
    let mut s = String::new();
    push_dec_u64(&mut s, 0);
    s.push(' ');
    push_dec_u64(&mut s, u64::MAX);
    s.push(' ');
    push_dec_i32(&mut s, -7);
    s.push(' ');
    push_dec_i32(&mut s, i32::MIN);
    assert_eq!(s, format!("0 {} -7 {}", u64::MAX, i32::MIN));
}

#[test]
fn white_space_is_unicode_white_space() {
    for c in [' ', '\t', '\n', '\u{b}', '\u{c}', '\r', '\u{85}', '\u{a0}', '\u{2003}', '\u{3000}'] {
        assert!(white_space(c));
        assert!(c.is_whitespace());
    }
    for c in ['a', '=', ';', '\u{200b}', '\u{0}'] {
        assert!(!white_space(c));
        assert!(!c.is_whitespace());
    }
}

#[test]
fn ranges_of_characters() {
    let v = chars_of("refresh_token=abc");
    assert_eq!(string_of_range(&v, 14, 17), "abc");
    assert_eq!(string_of_range(&v, 3, 3), "");
    assert!(range_equals(&v, 0, 13, &chars_of("refresh_token")));
    assert!(!range_equals(&v, 0, 12, &chars_of("refresh_token")));
    assert!(!range_equals(&v, 1, 14, &chars_of("refresh_token")));
}

fn text(e: MyError) -> String {
    match e {
        MyError::SiteError(m) => m,
    }
}

#[test]
fn model_request_outcomes() {
    assert_eq!(gpt_outcome(Some(Some(Some(5))), "t").unwrap(), 5);
    assert_eq!(text(gpt_outcome::<i32>(None, "t").unwrap_err()), "GPT|| t error: DONT CONNECT WITH API\n");
    assert_eq!(text(gpt_outcome::<i32>(Some(None), "t").unwrap_err()), "GPT|| t error: GET RESPONSE GPT\n");
    assert_eq!(text(gpt_outcome::<i32>(Some(Some(None)), "t").unwrap_err()), "GPT|| t error: PARSE GPT\n");
}

#[test]
fn model_clients_connect() {
    let mut gpt = easy_english::gpt_module::GptModule::new();
    assert!(gpt.api().is_none());
    gpt.connect("sk-test".to_string());
    assert!(gpt.api().is_some());
    let mut deepl = easy_english::translate_module::DeeplModule::new();
    assert!(deepl.api().is_none());
    deepl.connect("key:fx".to_string());
    assert!(deepl.api().is_some());
}

#[test]
fn chat_request_is_one_user_message_to_gpt4() {
    let r = chat_request("Привіт".to_string());
    assert_eq!(r.model, ChatModel::Gpt4);
    assert_eq!(r.messages.len(), 1);
    assert_eq!(r.messages[0].role, "user");
    assert_eq!(r.messages[0].content, "Привіт");
}
