//! Decisions of the handlers under `/api/userspace`.

use vstd::prelude::*;
use crate::controllers::object_of_controller::ResultGptTranslate;
use crate::jwt::Claims;
use crate::models::{MyError, UserDictionary};
use crate::text::push_str;

verus! {

/// The index of the first dictionary for the language `lang`, if any.
pub open spec fn first_lang_match(ds: Seq<(i32, Seq<char>, i32)>, lang: Seq<char>) -> Option<nat>
    decreases ds.len(),
{
    if ds.len() == 0 {
        None
    } else if ds[0].1 == lang {
        Some(0)
    } else {
        match first_lang_match(ds.drop_first(), lang) {
            Some(i) => Some(i + 1),
            None => None,
        }
    }
}

/// The dictionary that a user switches to: the first one for `lang`, or the
/// first of all where none is for `lang`.
pub open spec fn lang_index(ds: Seq<(i32, Seq<char>, i32)>, lang: Seq<char>) -> nat {
    match first_lang_match(ds, lang) {
        Some(i) => i,
        None => 0,
    }
}

/// A dictionary for `lang` stands at the index that `first_lang_match`
/// gives, and none stands before it; where it gives none, no dictionary is
/// for `lang`.
pub proof fn lemma_first_lang_match(ds: Seq<(i32, Seq<char>, i32)>, lang: Seq<char>)
    ensures
        match first_lang_match(ds, lang) {
            Some(i) => i < ds.len() && ds[i as int].1 == lang && forall|j: int|
                0 <= j < i ==> #[trigger] ds[j].1 != lang,
            None => forall|j: int| 0 <= j < ds.len() ==> #[trigger] ds[j].1 != lang,
        },
    decreases ds.len(),
{
    if ds.len() > 0 && ds[0].1 != lang {
        lemma_first_lang_match(ds.drop_first(), lang);
        assert forall|j: int| 1 <= j < ds.len() implies ds[j] == ds.drop_first()[j - 1] by {}
    }
}

/// Switching language keeps the index inside a non-empty list of
/// dictionaries, so the learning page can show it; and where the user has a
/// dictionary for `lang`, the page shows `lang`.
pub proof fn lemma_lang_index(ds: Seq<(i32, Seq<char>, i32)>, lang: Seq<char>)
    requires
        ds.len() > 0,
    ensures
        lang_index(ds, lang) < ds.len(),
        (exists|j: int| 0 <= j < ds.len() && #[trigger] ds[j].1 == lang) ==> ds[lang_index(
            ds,
            lang,
        ) as int].1 == lang,
{
    lemma_first_lang_match(ds, lang);
}

/// The index of the dictionary that a user switches to.
pub fn current_lang_index(dicts: &Vec<UserDictionary>, lang: &str) -> (r: usize)
    ensures
        r == lang_index(dicts@.map_values(|d: UserDictionary| d@), lang@),
{
    let ghost ds = dicts@.map_values(|d: UserDictionary| d@);
    let mut i: usize = 0;
    let target = String::from_str(lang);
    assert(ds.skip(0) =~= ds);
    while i < dicts.len()
        invariant
            i <= dicts@.len(),
            ds == dicts@.map_values(|d: UserDictionary| d@),
            target@ == lang@,
            first_lang_match(ds, lang@) == match first_lang_match(ds.skip(i as int), lang@) {
                Some(k) => Some((k + i) as nat),
                None => None,
            },
        decreases dicts@.len() - i,
    {
        proof {
            assert(ds.skip(i as int)[0] == ds[i as int]);
            assert(ds.skip(i as int).drop_first() == ds.skip(i + 1));
        }
        if dicts[i].language_name == target {
            return i;
        }
        i = i + 1;
    }
    0
}

/// The claims of a session whose user switches to the language `lang`.
pub fn with_current_lang(claims: Claims, lang: &str) -> (r: Claims)
    ensures
        r@.0 == claims@.0,
        r@.1 == claims@.1,
        r@.2 == claims@.2,
        r@.3 == claims@.3,
        r@.4 == claims@.4,
        r@.5 == lang_index(claims@.2, lang@),
{
    let index = current_lang_index(&claims.user_dictionaries, lang);
    Claims { current_lang_index: index, ..claims }
}

/// The request that the language model gets to translate `text`, written in
/// `from_lang` and meant as `text_explain`, into colloquial `into_lang`.
pub open spec fn gpt_translate_prompt_text(
    into_lang: Seq<char>,
    from_lang: Seq<char>,
    text: Seq<char>,
    text_explain: Seq<char>,
) -> Seq<char> {
    "Будь вчителем "@ + into_lang + " мови.\nВідповідайте лише у форматі JSON із такими даними:\n{\n      \"sentence:\"\",\n      \"explanation\":\"\"\n}\nЯк сказати моє речення "@ + into_lang + " мовою, розмовною "@ + into_lang + " мовою, щоб передати той самий зміст, та сенс. Моє речення написане "@ + from_lang + " мовою: \""@ + text + "\".\nЯ також наведу вам значення речення, яке я хотів передати: \""@ + text_explain + "\".\nУ відповідь:\nПоле \"sentence\" має містити твоє речення яке ти створив. Поле \"explanation\" повинно містити коротке пояснення вашого стовреного речення, твоє поясення має бути написано "@ + from_lang + " мовою."@
}

/// The prompt quotes the user's text whole: for given languages and
/// meaning, every prompt is one fixed text ending in `мовою: "`, then the
/// user's text unchanged, then one fixed text starting with `".`.
pub proof fn lemma_prompt_quotes_text(
    into_lang: Seq<char>,
    from_lang: Seq<char>,
    text_explain: Seq<char>,
) -> (parts: (Seq<char>, Seq<char>))
    ensures
        parts.0.len() >= 9,
        parts.0.skip(parts.0.len() - 9) == " мовою: \""@,
        parts.1.take(2) == "\"."@,
        forall|text: Seq<char>|
            #![trigger gpt_translate_prompt_text(into_lang, from_lang, text, text_explain)]
            gpt_translate_prompt_text(into_lang, from_lang, text, text_explain) == parts.0 + text
                + parts.1,
{
    let a = "Будь вчителем "@ + into_lang + " мови.\nВідповідайте лише у форматі JSON із такими даними:\n{\n      \"sentence:\"\",\n      \"explanation\":\"\"\n}\nЯк сказати моє речення "@ + into_lang + " мовою, розмовною "@ + into_lang + " мовою, щоб передати той самий зміст, та сенс. Моє речення написане "@ + from_lang + " мовою: \""@;
    let b = "\".\nЯ також наведу вам значення речення, яке я хотів передати: \""@ + text_explain + "\".\nУ відповідь:\nПоле \"sentence\" має містити твоє речення яке ти створив. Поле \"explanation\" повинно містити коротке пояснення вашого стовреного речення, твоє поясення має бути написано "@ + from_lang + " мовою."@;
    reveal_strlit(" мовою: \"");
    reveal_strlit("\".\nЯ також наведу вам значення речення, яке я хотів передати: \"");
    reveal_strlit("\".");
    let q = " мовою: \""@;
    assert(q.len() == 9);
    assert(a.skip(a.len() - 9) =~= q);
    assert(b.take(2) == "\"."@);
    assert forall|text: Seq<char>|
        #![trigger gpt_translate_prompt_text(into_lang, from_lang, text, text_explain)]
        gpt_translate_prompt_text(into_lang, from_lang, text, text_explain) == a + text + b by {
        assert(gpt_translate_prompt_text(into_lang, from_lang, text, text_explain) =~= a + text
            + b);
    }
    (a, b)
}

pub fn gpt_translate_prompt(into_lang: &str, from_lang: &str, text: &str, text_explain: &str) -> (r:
    String)
    ensures
        r@ == gpt_translate_prompt_text(into_lang@, from_lang@, text@, text_explain@),
{
    let mut q = String::new();
    push_str(&mut q, "Будь вчителем ");
    push_str(&mut q, into_lang);
    push_str(&mut q, " мови.\nВідповідайте лише у форматі JSON із такими даними:\n{\n      \"sentence:\"\",\n      \"explanation\":\"\"\n}\nЯк сказати моє речення ");
    push_str(&mut q, into_lang);
    push_str(&mut q, " мовою, розмовною ");
    push_str(&mut q, into_lang);
    push_str(&mut q, " мовою, щоб передати той самий зміст, та сенс. Моє речення написане ");
    push_str(&mut q, from_lang);
    push_str(&mut q, " мовою: \"");
    push_str(&mut q, text);
    push_str(&mut q, "\".\nЯ також наведу вам значення речення, яке я хотів передати: \"");
    push_str(&mut q, text_explain);
    push_str(&mut q, "\".\nУ відповідь:\nПоле \"sentence\" має містити твоє речення яке ти створив. Поле \"explanation\" повинно містити коротке пояснення вашого стовреного речення, твоє поясення має бути написано ");
    push_str(&mut q, from_lang);
    push_str(&mut q, " мовою.");
    q
}

/// What the translation page shows: the model's answer, or a request to try
/// again where the model failed.
pub fn gpt_translate_reply(answer: Result<ResultGptTranslate, MyError>) -> (r: ResultGptTranslate)
    ensures
        match answer {
            Ok(a) => r == a,
            Err(_) => r.sentence@ == "Error, please try again"@ && r.explanation@
                == "Error, please try again"@,
        },
{
    match answer {
        Ok(a) => a,
        Err(_) => ResultGptTranslate {
            sentence: String::from_str("Error, please try again"),
            explanation: String::from_str("Error, please try again"),
        },
    }
}

} // verus!
