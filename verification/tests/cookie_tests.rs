use easy_english::check_user_api_middleware::find_cookie_value;

#[test]
fn cookie_found_among_others() {
    let r = find_cookie_value("a=1; refresh_token=abc; b=2", "refresh_token");
    assert_eq!(r, Some("abc".to_string()));
}

#[test]
fn cookie_missing_gives_none() {
    assert_eq!(find_cookie_value("a=1; b=2", "refresh_token"), None);
    assert_eq!(find_cookie_value("", "refresh_token"), None);
}

#[test]
fn cookie_value_keeps_later_equals_signs() {
    assert_eq!(find_cookie_value("t=a=b", "t"), Some("a=b".to_string()));
}

#[test]
fn cookie_piece_without_equals_is_passed_over() {
    assert_eq!(find_cookie_value("refresh_token; refresh_token=x", "refresh_token"), Some("x".to_string()));
}

#[test]
fn cookie_first_occurrence_wins() {
    assert_eq!(find_cookie_value("k=1;k=2", "k"), Some("1".to_string()));
}

#[test]
fn cookie_pieces_are_trimmed() {
    assert_eq!(find_cookie_value("  a=1 ;\t k = v  ", "a"), Some("1".to_string()));
    // the name is compared after trimming the whole piece only
    assert_eq!(find_cookie_value("k = v", "k"), None);
    assert_eq!(find_cookie_value("k = v", "k "), Some(" v".to_string()));
}

#[test]
fn cookie_empty_value() {
    assert_eq!(find_cookie_value("refresh_token=", "refresh_token"), Some(String::new()));
}

#[test]
fn cookie_name_must_match_whole() {
    assert_eq!(find_cookie_value("xrefresh_token=1", "refresh_token"), None);
    assert_eq!(find_cookie_value("refresh_tokens=1", "refresh_token"), None);
}
