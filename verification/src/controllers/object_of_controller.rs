//! The bodies that the JSON API reads and writes.

use vstd::prelude::*;

verus! {

/// A login: user name and password.
#[derive(Debug)]
pub struct AuthInfo {
    pub user_name: String,
    pub password: String,
}

/// Whether a request succeeded.
#[derive(Debug, PartialEq, Eq, Structural, Clone, Copy)]
pub struct RequestResult {
    pub status: bool,
}

/// The answer of a guarded API route to a request without a valid session.
#[derive(Debug, PartialEq, Eq, Structural, Clone, Copy)]
pub struct ErrorDb {
    pub error: bool,
}

/// The ids of the languages that a user chose dictionaries for.
#[derive(Debug)]
pub struct DictionariesId {
    pub dictionaries_id: Vec<i32>,
}

/// The language that a user switches to.
#[derive(Debug)]
pub struct CurrentLanguage {
    pub current_lang: String,
}

/// A text and the languages it is in and is wanted in.
#[derive(Debug)]
pub struct Translate {
    pub from_lang: String,
    pub into_lang: String,
    pub text: String,
}

/// A translated text.
#[derive(Debug)]
pub struct ResultTranslate {
    pub text: String,
}

/// What the language model answers to a translation request.
#[derive(Debug)]
pub struct ResultGptTranslate {
    pub sentence: String,
    pub explanation: String,
}

} // verus!
