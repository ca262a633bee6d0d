//! The data that the HTML templates are rendered with.

use vstd::prelude::*;
use crate::models::{LanguageSupported, UserDictionary};

verus! {

/// The page where a new user chooses dictionaries.
#[derive(Debug)]
pub struct LanguagesSupportedTemplate {
    pub languages: Vec<LanguageSupported>,
}

/// The error page.
#[derive(Debug)]
pub struct ErrorTemplate {
    pub error: String,
}

/// The learning page.
#[derive(Debug)]
pub struct CurrentLangTemplate {
    pub current_lang: String,
    pub languages: Vec<UserDictionary>,
}

/// The translator page.
#[derive(Debug)]
pub struct TranslateTemplate {
    pub current_lang: String,
    pub current_lang_id: i32,
    pub languages: Vec<UserDictionary>,
    pub langueges_supported: Vec<LanguageSupported>,
}

} // verus!
