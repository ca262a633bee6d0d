//! The data model: errors, users, dictionaries, supported languages and
//! the database settings, with the text that the database layer sends and
//! the decisions it takes on what the database answers.

use vstd::prelude::*;
use vstd::string::StringExecFns;
use crate::controllers::object_of_controller::AuthInfo;
use crate::text::{dec_int, push_dec_i32, push_str};
use crate::claims_parser::{lemma_parse_dec_int, parse_i32_prefix};

verus! {

/// An error of the site; its text goes to the error log.
#[derive(Debug)]
pub enum MyError {
    SiteError(String),
}

impl Clone for MyError {
    fn clone(&self) -> (r: Self)
        ensures
            r == *self,
    {
        match self {
            MyError::SiteError(m) => MyError::SiteError(m.clone()),
        }
    }
}

impl MyError {
    /// The text of the error.
    pub open spec fn text(self) -> Seq<char> {
        match self {
            MyError::SiteError(m) => m@,
        }
    }

    /// Appends the text of the error to the error log.
    pub fn pushlog(&self, log: &mut ErrorLog)
        ensures
            final(log)@ == old(log)@ + self.text(),
    {
        match self {
            MyError::SiteError(mess_err) => log.push(mess_err.as_str()),
        }
    }
}

/// The text of a site error: `{source}|| {time} error: {detail}` and a line break.
pub open spec fn site_error_text(source: Seq<char>, time: Seq<char>, detail: Seq<char>) -> Seq<
    char,
> {
    source + "|| "@ + time + " error: "@ + detail + "\n"@
}

/// A site error from `source` (such as `MYSQL`, `GPT` or `LOGIC`) at `time`.
pub fn site_error(source: &str, time: &str, detail: &str) -> (r: MyError)
    ensures
        r.text() == site_error_text(source@, time@, detail@),
{
    let mut m = String::new();
    push_str(&mut m, source);
    push_str(&mut m, "|| ");
    push_str(&mut m, time);
    push_str(&mut m, " error: ");
    push_str(&mut m, detail);
    push_str(&mut m, "\n");
    MyError::SiteError(m)
}

/// A database error: `MYSQL|| {time} error: {detail}` and a line break.
pub fn mysql_error(time: &str, detail: &str) -> (r: MyError)
    ensures
        r.text() == site_error_text("MYSQL"@, time@, detail@),
{
    site_error("MYSQL", time, detail)
}

/// The error of a failed statement of `executeSql`, which carries the
/// caller's message followed by a space.
pub fn execute_sql_error(time: &str, error_mess: &str) -> (r: MyError)
    ensures
        r.text() == site_error_text("MYSQL"@, time@, error_mess@ + " "@),
{
    let mut detail = String::from_str(error_mess);
    push_str(&mut detail, " ");
    site_error("MYSQL", time, detail.as_str())
}

/// The error of a page that needs a session but was reached without one.
pub fn not_auth_error(time: &str) -> (r: MyError)
    ensures
        r.text() == site_error_text("LOGIC"@, time@, "IT IS NOT SITE WITH AUTH"@),
{
    site_error("LOGIC", time, "IT IS NOT SITE WITH AUTH")
}

/// How a request to the language model failed.
#[derive(Debug, PartialEq, Eq, Structural, Clone, Copy)]
pub enum GptFailure {
    /// No API token was given.
    NotConnected,
    /// The answer was not the JSON asked for.
    Parse,
    /// The API gave no answer.
    NoResponse,
}

pub open spec fn gpt_failure_text(f: GptFailure) -> Seq<char> {
    match f {
        GptFailure::NotConnected => "DONT CONNECT WITH API"@,
        GptFailure::Parse => "PARSE GPT"@,
        GptFailure::NoResponse => "GET RESPONSE GPT"@,
    }
}

/// The error of a failed request to the language model.
pub fn gpt_error(failure: GptFailure, time: &str) -> (r: MyError)
    ensures
        r.text() == site_error_text("GPT"@, time@, gpt_failure_text(failure)),
{
    match failure {
        GptFailure::NotConnected => site_error("GPT", time, "DONT CONNECT WITH API"),
        GptFailure::Parse => site_error("GPT", time, "PARSE GPT"),
        GptFailure::NoResponse => site_error("GPT", time, "GET RESPONSE GPT"),
    }
}

/// The log of database errors that the settings page shows.
pub struct ErrorLog {
    text: String,
}

impl View for ErrorLog {
    type V = Seq<char>;

    closed spec fn view(&self) -> Seq<char> {
        self.text@
    }
}

impl ErrorLog {
    /// An empty log.
    pub fn new() -> (r: ErrorLog)
        ensures
            r@ == Seq::<char>::empty(),
    {
        ErrorLog { text: String::new() }
    }

    /// Appends a text to the log.
    pub fn push(&mut self, t: &str)
        ensures
            final(self)@ == old(self)@ + t@,
    {
        push_str(&mut self.text, t);
    }

    /// Empties the log, as a successful connection to the database does.
    pub fn clear(&mut self)
        ensures
            final(self)@ == Seq::<char>::empty(),
    {
        self.text = String::new();
    }

    /// The text of the log.
    pub fn as_str(&self) -> (r: &str)
        ensures
            r@ == self@,
    {
        self.text.as_str()
    }
}

/// A row of the `users` table.
#[derive(Debug)]
pub struct User {
    pub id: i32,
    pub user_name: String,
    pub password: String,
}

/// A dictionary that a user learns: its id and the language it is for.
#[derive(Debug)]
pub struct UserDictionary {
    pub id: i32,
    pub language_name: String,
    pub language_id: i32,
}

impl View for UserDictionary {
    type V = (i32, Seq<char>, i32);

    open spec fn view(&self) -> (i32, Seq<char>, i32) {
        (self.id, self.language_name@, self.language_id)
    }
}

impl UserDictionary {
    /// A copy with the same fields.
    pub fn copy(&self) -> (r: UserDictionary)
        ensures
            r@ == self@,
    {
        UserDictionary {
            id: self.id,
            language_name: self.language_name.clone(),
            language_id: self.language_id,
        }
    }
}

/// A copy of a list of dictionaries.
pub fn copy_dictionaries(v: &Vec<UserDictionary>) -> (r: Vec<UserDictionary>)
    ensures
        r@.len() == v@.len(),
        forall|i: int| 0 <= i < v@.len() ==> #[trigger] r@[i]@ == v@[i]@,
{
    let mut r: Vec<UserDictionary> = Vec::new();
    for i in 0..v.len()
        invariant
            r@.len() == i,
            forall|j: int| 0 <= j < i ==> #[trigger] r@[j]@ == v@[j]@,
    {
        r.push(v[i].copy());
    }
    r
}

/// A language that the site supports.
#[derive(Debug)]
pub struct LanguageSupported {
    pub id: i32,
    pub language_name: String,
}

/// Where the MySQL database is and how to log in to it.
#[derive(Debug)]
pub struct MysqlInfo {
    pub ip: String,
    pub login: String,
    pub password: String,
    pub database: String,
    pub port: String,
}

/// `mysql://{login}:{password}@{ip}:{port}/{database}`
pub open spec fn database_url_text(info: MysqlInfo) -> Seq<char> {
    "mysql://"@ + info.login@ + ":"@ + info.password@ + "@"@ + info.ip@ + ":"@ + info.port@ + "/"@
        + info.database@
}

/// The URL that the connection pool is opened with.
pub fn database_url(info: &MysqlInfo) -> (r: String)
    ensures
        r@ == database_url_text(*info),
{
    let mut r = String::new();
    push_str(&mut r, "mysql://");
    push_str(&mut r, info.login.as_str());
    push_str(&mut r, ":");
    push_str(&mut r, info.password.as_str());
    push_str(&mut r, "@");
    push_str(&mut r, info.ip.as_str());
    push_str(&mut r, ":");
    push_str(&mut r, info.port.as_str());
    push_str(&mut r, "/");
    push_str(&mut r, info.database.as_str());
    r
}

/// The user id that a login gets from the users found under its name: the
/// first user's id where the password is that user's, else -1.
pub open spec fn auth_result(users: Seq<User>, password: Seq<char>) -> i32 {
    if users.len() > 0 && users[0].password@ == password {
        users[0].id
    } else {
        -1i32
    }
}

/// A login is let in as the first user found exactly when the password is
/// that user's, character for character: a password that differs in one
/// character or in length is refused with -1, as is every login under a name
/// that no user has.
pub proof fn lemma_auth_result(users: Seq<User>, password: Seq<char>)
    ensures
        users.len() == 0 ==> auth_result(users, password) == -1,
        users.len() > 0 && users[0].password@ == password ==> auth_result(users, password)
            == users[0].id,
        users.len() > 0 && users[0].password@.len() != password.len() ==> auth_result(
            users,
            password,
        ) == -1,
        forall|i: int|
            #![trigger password[i]]
            users.len() > 0 && 0 <= i < password.len() && i < users[0].password@.len()
                && users[0].password@[i] != password[i] ==> auth_result(users, password) == -1,
        auth_result(users, password) != -1 ==> users.len() > 0 && users[0].password@ == password,
{
}

/// Decides a login on the rows that `SELECT * FROM users WHERE user_name=?` gave.
pub fn check_auth(users: &Vec<User>, auth_info: &AuthInfo) -> (r: i32)
    ensures
        r == auth_result(users@, auth_info.password@),
        users@.len() > 0 && users@[0].password@ == auth_info.password@ ==> r == users@[0].id,
        r != -1 ==> users@.len() > 0 && users@[0].password@ == auth_info.password@ && r
            == users@[0].id,
        users@.len() > 0 && users@[0].password@ != auth_info.password@ ==> r == -1,
{
    if users.len() > 0 && users[0].password == auth_info.password {
        users[0].id
    } else {
        -1
    }
}

/// The statement that gives a user a dictionary for a language.
pub open spec fn insert_dictionary_text(user_id: i32, language_id: i32) -> Seq<char> {
    "INSERT INTO user_dictionaries (user_id,language_id) VALUES ("@ + dec_int(user_id as int)
        + ","@ + dec_int(language_id as int) + ");"@
}

/// The statement gives the dictionary to the user it is for: reading the two
/// numbers back out of its `VALUES` list gives the user id and the language
/// id, in that order.
pub proof fn lemma_insert_values(user_id: i32, language_id: i32)
    ensures
        ({
            let s = insert_dictionary_text(user_id, language_id);
            let head = "INSERT INTO user_dictionaries (user_id,language_id) VALUES ("@;
            let p = head.len() as int;
            &&& s.take(p) == head
            &&& parse_i32_prefix(s.skip(p)) matches Some((u, k)) && u == user_id && s[p + k]
                == ',' && (parse_i32_prefix(s.skip(p + k + 1)) matches Some((l, k2)) && l
                == language_id && s.skip(p + k + 1 + k2) == ");"@)
        }),
{
    let head = "INSERT INTO user_dictionaries (user_id,language_id) VALUES ("@;
    let p = head.len() as int;
    let a = dec_int(user_id as int);
    let b = dec_int(language_id as int);
    let tail = ");"@;
    let s = insert_dictionary_text(user_id, language_id);
    reveal_strlit(",");
    reveal_strlit(");");
    assert(s =~= head + a + (seq![','] + b + tail));
    assert(s.take(p) =~= head);
    assert(s.skip(p) =~= a + (seq![','] + b + tail));
    lemma_parse_dec_int(user_id, seq![','] + b + tail);
    let k = a.len() as int;
    assert(s[p + k] == ',');
    assert(s.skip(p + k + 1) =~= b + tail);
    lemma_parse_dec_int(language_id, tail);
    assert(s.skip(p + k + 1 + b.len()) =~= tail);
}

pub fn insert_dictionary_query(user_id: i32, language_id: i32) -> (r: String)
    ensures
        r@ == insert_dictionary_text(user_id, language_id),
{
    let mut r = String::new();
    push_str(&mut r, "INSERT INTO user_dictionaries (user_id,language_id) VALUES (");
    push_dec_i32(&mut r, user_id);
    push_str(&mut r, ",");
    push_dec_i32(&mut r, language_id);
    push_str(&mut r, ");");
    r
}

/// One statement per language id, in order, as `setDictionaries` runs them.
pub fn set_dictionaries_queries(dictionaries_id: &Vec<i32>, user_id: i32) -> (r: Vec<String>)
    ensures
        r@.len() == dictionaries_id@.len(),
        forall|i: int|
            0 <= i < r@.len() ==> #[trigger] r@[i]@ == insert_dictionary_text(
                user_id,
                dictionaries_id@[i],
            ),
{
    let mut r: Vec<String> = Vec::new();
    for i in 0..dictionaries_id.len()
        invariant
            r@.len() == i,
            forall|j: int|
                0 <= j < i ==> #[trigger] r@[j]@ == insert_dictionary_text(
                    user_id,
                    dictionaries_id@[j],
                ),
    {
        r.push(insert_dictionary_query(user_id, dictionaries_id[i]));
    }
    r
}

/// The outcome of a batch of statements: the first failure in order, or
/// success when none failed.
pub open spec fn batch_result(results: Seq<Result<bool, MyError>>) -> Result<bool, MyError>
    decreases results.len(),
{
    if results.len() == 0 {
        Ok(true)
    } else {
        match results[0] {
            Err(e) => Err(e),
            Ok(_) => batch_result(results.drop_first()),
        }
    }
}

/// A batch succeeds exactly when every statement in it succeeded; where it
/// fails, it fails with the first failure in order.
pub proof fn lemma_batch_result(results: Seq<Result<bool, MyError>>)
    ensures
        batch_result(results) is Ok <==> forall|i: int|
            0 <= i < results.len() ==> #[trigger] results[i] is Ok,
        batch_result(results) is Ok ==> batch_result(results) == Ok::<bool, MyError>(true),
        batch_result(results) is Err ==> exists|i: int|
            0 <= i < results.len() && results[i] == batch_result(results) && forall|j: int|
                0 <= j < i ==> #[trigger] results[j] is Ok,
    decreases results.len(),
{
    if results.len() > 0 {
        let rest = results.drop_first();
        lemma_batch_result(rest);
        assert forall|i: int| 1 <= i < results.len() implies results[i] == rest[i - 1] by {}
        if results[0] is Ok {
            if batch_result(rest) is Err {
                let k = choose|k: int|
                    0 <= k < rest.len() && rest[k] == batch_result(rest) && forall|j: int|
                        0 <= j < k ==> #[trigger] rest[j] is Ok;
                assert(results[k + 1] == rest[k]);
                assert forall|j: int| 0 <= j < k + 1 implies #[trigger] results[j] is Ok by {
                    if j > 0 {
                        assert(results[j] == rest[j - 1]);
                    }
                }
            }
            if batch_result(rest) is Ok {
                assert forall|i: int| 0 <= i < results.len() implies #[trigger] results[i] is Ok by {
                    if i > 0 {
                        assert(results[i] == rest[i - 1]);
                    }
                }
            }
        }
    }
}

/// Folds the results of the statements of `setDictionaries`.
pub fn set_dictionaries_result(results: &Vec<Result<bool, MyError>>) -> (r: Result<bool, MyError>)
    ensures
        r == batch_result(results@),
{
    let mut i: usize = 0;
    assert(results@.skip(0) == results@);
    while i < results.len()
        invariant
            i <= results@.len(),
            batch_result(results@) == batch_result(results@.skip(i as int)),
        decreases results@.len() - i,
    {
        proof {
            assert(results@.skip(i as int).drop_first() == results@.skip(i + 1));
        }
        match &results[i] {
            Err(e) => {
                return Err(e.clone());
            },
            Ok(_) => {},
        }
        i = i + 1;
    }
    Ok(true)
}

/// The connection to the database, where there is one: a pool of type `P`
/// (sqlx's MySQL pool in the server).
pub struct MysqlDB<P> {
    pub mysql: Option<P>,
}

impl<P> MysqlDB<P> {
    /// No connection yet.
    pub fn new() -> (r: MysqlDB<P>)
        ensures
            r.mysql is None,
    {
        MysqlDB { mysql: None }
    }

    /// Drops the connection.
    pub fn disconnect(&mut self)
        ensures
            final(self).mysql is None,
    {
        self.mysql = None;
    }

    /// Takes what opening the pool gave: the pool, or the text of the
    /// error. A new connection empties the error log and gives `Ok(true)`;
    /// a failure leaves no connection and gives the database error at `time`.
    pub fn connect(&mut self, opened: Result<P, String>, time: &str, log: &mut ErrorLog) -> (r:
        Result<bool, MyError>)
        ensures
            match opened {
                Ok(pool) => final(self).mysql == Some(pool) && r == Ok::<bool, MyError>(true)
                    && final(log)@ == Seq::<char>::empty(),
                Err(e) => final(self).mysql is None && final(log)@ == old(log)@ && match r {
                    Err(err) => err.text() == site_error_text("MYSQL"@, time@, e@),
                    Ok(_) => false,
                },
            },
            r is Ok <==> final(self).mysql is Some,
            r != Ok::<bool, MyError>(false),
    {
        self.mysql = None;
        match opened {
            Ok(pool) => {
                log.clear();
                self.mysql = Some(pool);
                Ok(true)
            },
            Err(e) => {
                self.disconnect();
                Err(mysql_error(time, e.as_str()))
            },
        }
    }
}

} // verus!
