use easy_english::controllers::object_of_controller::AuthInfo;
use easy_english::models::{
    check_auth, database_url, execute_sql_error, gpt_error, insert_dictionary_query, mysql_error,
    not_auth_error, set_dictionaries_queries, set_dictionaries_result, site_error, ErrorLog,
    GptFailure, MyError, MysqlInfo, User,
};
use easy_english::text::chars_of;

fn text(e: &MyError) -> String {
    match e {
        MyError::SiteError(m) => m.clone(),
    }
}

#[test]
fn url_of_database() {
    let info = MysqlInfo {
        ip: "213.226.95.124".to_string(),
        login: "root_all".to_string(),
        password: "1".to_string(),
        database: "easy_english".to_string(),
        port: "6060".to_string(),
    };
    assert_eq!(database_url(&info), "mysql://root_all:1@213.226.95.124:6060/easy_english");
}

fn user(id: i32, name: &str, password: &str) -> User {
    User { id, user_name: name.to_string(), password: password.to_string() }
}

#[test]
fn login_checks_first_user_password() {
    let auth = AuthInfo { user_name: "ann".to_string(), password: "pw".to_string() };
    assert_eq!(check_auth(&vec![user(7, "ann", "pw")], &auth), 7);
    assert_eq!(check_auth(&vec![user(7, "ann", "other")], &auth), -1);
    assert_eq!(check_auth(&vec![], &auth), -1);
    assert_eq!(check_auth(&vec![user(3, "ann", "x"), user(4, "ann", "pw")], &auth), -1);
}

#[test]
fn dictionary_insert_statement() {
    assert_eq!(
        insert_dictionary_query(5, -3),
        "INSERT INTO user_dictionaries (user_id,language_id) VALUES (5,-3);"
    );
    assert_eq!(
        insert_dictionary_query(i32::MIN, i32::MAX),
        format!("INSERT INTO user_dictionaries (user_id,language_id) VALUES ({},{});", i32::MIN, i32::MAX)
    );
    assert_eq!(
        insert_dictionary_query(0, 10),
        "INSERT INTO user_dictionaries (user_id,language_id) VALUES (0,10);"
    );
}

#[test]
fn one_statement_per_language() {
    let q = set_dictionaries_queries(&vec![1, 2, 30], 9);
    assert_eq!(q.len(), 3);
    assert_eq!(q[2], "INSERT INTO user_dictionaries (user_id,language_id) VALUES (9,30);");
    assert!(set_dictionaries_queries(&vec![], 9).is_empty());
}

#[test]
fn batch_fails_with_first_failure() {
    let results = vec![
        Ok(true),
        Err(MyError::SiteError("first".to_string())),
        Err(MyError::SiteError("second".to_string())),
    ];
    match set_dictionaries_result(&results) {
        Err(e) => assert_eq!(text(&e), "first"),
        Ok(_) => panic!("expected a failure"),
    }
    assert!(matches!(set_dictionaries_result(&vec![Ok(true), Ok(false)]), Ok(true)));
    assert!(matches!(set_dictionaries_result(&vec![]), Ok(true)));
}

#[test]
fn error_texts() {
    assert_eq!(text(&site_error("X", "t", "d")), "X|| t error: d\n");
    assert_eq!(text(&mysql_error("2024", "down")), "MYSQL|| 2024 error: down\n");
    assert_eq!(text(&execute_sql_error("2024", "set dictionaries")), "MYSQL|| 2024 error: set dictionaries \n");
    assert_eq!(text(&not_auth_error("2024")), "LOGIC|| 2024 error: IT IS NOT SITE WITH AUTH\n");
    assert_eq!(text(&gpt_error(GptFailure::NotConnected, "t")), "GPT|| t error: DONT CONNECT WITH API\n");
    assert_eq!(text(&gpt_error(GptFailure::Parse, "t")), "GPT|| t error: PARSE GPT\n");
    assert_eq!(text(&gpt_error(GptFailure::NoResponse, "t")), "GPT|| t error: GET RESPONSE GPT\n");
}

#[test]
fn error_log_appends_and_clears() {
    let mut log = ErrorLog::new();
    assert_eq!(log.as_str(), "");
    MyError::SiteError("a\n".to_string()).pushlog(&mut log);
    MyError::SiteError("b\n".to_string()).pushlog(&mut log);
    assert_eq!(log.as_str(), "a\nb\n");
    log.clear();
    assert_eq!(log.as_str(), "");
}

#[test]
fn characters_of_a_string() {
    assert_eq!(chars_of("aé€"), vec!['a', 'é', '€']);
}

#[test]
fn database_connected_keeps_pool_and_clears_log() {
    let mut db: easy_english::models::MysqlDB<u8> = easy_english::models::MysqlDB::new();
    assert!(db.mysql.is_none());
    let mut log = ErrorLog::new();
    log.push("old failure\n");
    let r = db.connect(Ok(7u8), "12:00", &mut log);
    assert!(matches!(r, Ok(true)));
    assert_eq!(db.mysql, Some(7u8));
    assert_eq!(log.as_str(), "");
    db.disconnect();
    assert!(db.mysql.is_none());
}

#[test]
fn database_connect_failure_gives_mysql_error() {
    let mut db: easy_english::models::MysqlDB<u8> = easy_english::models::MysqlDB::new();
    let mut log = ErrorLog::new();
    log.push("kept\n");
    let r = db.connect(Err("refused".to_string()), "12:00", &mut log);
    match r {
        Err(e) => assert_eq!(text(&e), "MYSQL|| 12:00 error: refused\n"),
        Ok(_) => panic!("a failed connection must be an error"),
    }
    assert!(db.mysql.is_none());
    assert_eq!(log.as_str(), "kept\n");
}
