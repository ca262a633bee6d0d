//! Decisions of the page handlers under `/view`.

use vstd::prelude::*;
use crate::jwt::Claims;
use crate::models::{UserDictionary, copy_dictionaries};
use crate::render_temps::CurrentLangTemplate;

verus! {

/// The data of the learning page: the language of the session's current
/// dictionary, and all its dictionaries.
pub fn learn_main_template(claims: &Claims) -> (r: CurrentLangTemplate)
    requires
        claims.current_lang_index < claims.user_dictionaries@.len(),
    ensures
        r.current_lang@ == claims.user_dictionaries@[claims.current_lang_index as int].language_name@,
        r.languages@.map_values(|d: UserDictionary| d@) == claims@.2,
{
    let languages = copy_dictionaries(&claims.user_dictionaries);
    let r = CurrentLangTemplate {
        current_lang: claims.user_dictionaries[claims.current_lang_index].language_name.clone(),
        languages,
    };
    assert(r.languages@.map_values(|d: UserDictionary| d@) =~= claims@.2);
    r
}

} // verus!
