//! Reading the claims of a token from any JSON form that serde's reading of
//! the claims accepts: the fields of an object in any order, among other
//! fields, with any white space and escapes; or an array of the field
//! values in the order of the fields. `serde_json` reads the JSON; this
//! module puts its pieces together.

use std::collections::BTreeMap;
use serde_json::value::RawValue;
use vstd::prelude::*;
use crate::jwt::{Claims, ClaimsView, option_claims_view};
use crate::models::UserDictionary;
use crate::text::option_string_view;

verus! {

/// The members of a JSON object text, by name, with the JSON text of each
/// value, as `serde_json::from_str` reads the object into a
/// `BTreeMap<String, Box<RawValue>>` (a name that stands twice keeps its last
/// value); `None` where the text is not one JSON object.
pub uninterp spec fn json_object_members(text: Seq<char>) -> Option<Seq<(Seq<char>, Seq<char>)>>;

/// The JSON texts of the elements of a JSON array text, as
/// `serde_json::from_str` reads it into a `Vec<Box<RawValue>>`; `None` where
/// the text is not one JSON array.
pub uninterp spec fn json_array_items(text: Seq<char>) -> Option<Seq<Seq<char>>>;

/// What `serde_json::from_str::<i32>` reads from a JSON text.
pub uninterp spec fn json_i32_value(text: Seq<char>) -> Option<i32>;

/// What `serde_json::from_str::<u64>` reads from a JSON text.
pub uninterp spec fn json_u64_value(text: Seq<char>) -> Option<u64>;

/// What `serde_json::from_str::<usize>` reads from a JSON text.
pub uninterp spec fn json_usize_value(text: Seq<char>) -> Option<usize>;

/// What `serde_json::from_str::<bool>` reads from a JSON text.
pub uninterp spec fn json_bool_value(text: Seq<char>) -> Option<bool>;

/// What `serde_json::from_str::<String>` reads from a JSON text.
pub uninterp spec fn json_string_value(text: Seq<char>) -> Option<Seq<char>>;

pub open spec fn pairs_view(v: Seq<(String, String)>) -> Seq<(Seq<char>, Seq<char>)> {
    v.map_values(|p: (String, String)| (p.0@, p.1@))
}

pub open spec fn option_pairs_view(o: Option<Vec<(String, String)>>) -> Option<
    Seq<(Seq<char>, Seq<char>)>,
> {
    match o {
        Some(v) => Some(pairs_view(v@)),
        None => None,
    }
}

pub open spec fn strings_view(v: Seq<String>) -> Seq<Seq<char>> {
    v.map_values(|s: String| s@)
}

pub open spec fn option_strings_view(o: Option<Vec<String>>) -> Option<Seq<Seq<char>>> {
    match o {
        Some(v) => Some(strings_view(v@)),
        None => None,
    }
}

/// Calls `serde_json::from_str::<BTreeMap<String, Box<RawValue>>>` and gives
/// the members with the text of each value. Claimed: the result is
/// `json_object_members` of the text.
#[verifier::external_body]
fn json_members(text: &str) -> (r: Option<Vec<(String, String)>>)
    ensures
        option_pairs_view(r) == json_object_members(text@),
{
    match serde_json::from_str::<BTreeMap<String, Box<RawValue>>>(text) {
        Ok(m) => Some(m.into_iter().map(|(k, v)| (k, v.get().to_string())).collect()),
        Err(_) => None,
    }
}

/// Calls `serde_json::from_str::<Vec<Box<RawValue>>>` and gives the text of
/// each element. Claimed: the result is `json_array_items` of the text.
#[verifier::external_body]
fn json_items(text: &str) -> (r: Option<Vec<String>>)
    ensures
        option_strings_view(r) == json_array_items(text@),
{
    match serde_json::from_str::<Vec<Box<RawValue>>>(text) {
        Ok(v) => Some(v.into_iter().map(|x| x.get().to_string()).collect()),
        Err(_) => None,
    }
}

/// Calls `serde_json::from_str::<i32>`. Claimed: the result is `json_i32_value`.
#[verifier::external_body]
fn json_i32(text: &str) -> (r: Option<i32>)
    ensures
        r == json_i32_value(text@),
{
    serde_json::from_str::<i32>(text).ok()
}

/// Calls `serde_json::from_str::<u64>`. Claimed: the result is `json_u64_value`.
#[verifier::external_body]
fn json_u64(text: &str) -> (r: Option<u64>)
    ensures
        r == json_u64_value(text@),
{
    serde_json::from_str::<u64>(text).ok()
}

/// Calls `serde_json::from_str::<usize>`. Claimed: the result is
/// `json_usize_value`.
#[verifier::external_body]
fn json_usize(text: &str) -> (r: Option<usize>)
    ensures
        r == json_usize_value(text@),
{
    serde_json::from_str::<usize>(text).ok()
}

/// Calls `serde_json::from_str::<bool>`. Claimed: the result is
/// `json_bool_value`.
#[verifier::external_body]
fn json_bool(text: &str) -> (r: Option<bool>)
    ensures
        r == json_bool_value(text@),
{
    serde_json::from_str::<bool>(text).ok()
}

/// Calls `serde_json::from_str::<String>`. Claimed: the result is
/// `json_string_value`.
#[verifier::external_body]
fn json_string(text: &str) -> (r: Option<String>)
    ensures
        option_string_view(r) == json_string_value(text@),
{
    serde_json::from_str::<String>(text).ok()
}

/// The value text of the member named `name`.
pub open spec fn member(ms: Seq<(Seq<char>, Seq<char>)>, name: Seq<char>) -> Option<Seq<char>>
    decreases ms.len(),
{
    if ms.len() == 0 {
        None
    } else if ms[0].0 == name {
        Some(ms[0].1)
    } else {
        member(ms.drop_first(), name)
    }
}

pub open spec fn field_i32(t: Option<Seq<char>>) -> Option<i32> {
    match t {
        Some(t) => json_i32_value(t),
        None => None,
    }
}

pub open spec fn field_u64(t: Option<Seq<char>>) -> Option<u64> {
    match t {
        Some(t) => json_u64_value(t),
        None => None,
    }
}

pub open spec fn field_usize(t: Option<Seq<char>>) -> Option<usize> {
    match t {
        Some(t) => json_usize_value(t),
        None => None,
    }
}

pub open spec fn field_bool(t: Option<Seq<char>>) -> Option<bool> {
    match t {
        Some(t) => json_bool_value(t),
        None => None,
    }
}

pub open spec fn field_string(t: Option<Seq<char>>) -> Option<Seq<char>> {
    match t {
        Some(t) => json_string_value(t),
        None => None,
    }
}

/// A dictionary from the texts of its three fields: all must be present and
/// read.
pub open spec fn dictionary_of_fields(
    id: Option<Seq<char>>,
    name: Option<Seq<char>>,
    language: Option<Seq<char>>,
) -> Option<(i32, Seq<char>, i32)> {
    match (field_i32(id), field_string(name), field_i32(language)) {
        (Some(a), Some(b), Some(c)) => Some((a, b, c)),
        _ => None,
    }
}

/// A dictionary from a JSON text: an object with the members `id`,
/// `language_name` and `language_id` (others are passed over), or an array of
/// those three values.
pub open spec fn dictionary_of_value(t: Seq<char>) -> Option<(i32, Seq<char>, i32)> {
    match json_object_members(t) {
        Some(ms) => dictionary_of_fields(
            member(ms, "id"@),
            member(ms, "language_name"@),
            member(ms, "language_id"@),
        ),
        None => match json_array_items(t) {
            Some(items) => if items.len() == 3 {
                dictionary_of_fields(Some(items[0]), Some(items[1]), Some(items[2]))
            } else {
                None
            },
            None => None,
        },
    }
}

/// Dictionaries from the texts of the elements of an array: each must read.
pub open spec fn dictionaries_of_items(items: Seq<Seq<char>>) -> Option<Seq<(i32, Seq<char>, i32)>>
    decreases items.len(),
{
    if items.len() == 0 {
        Some(Seq::empty())
    } else {
        match (dictionaries_of_items(items.drop_last()), dictionary_of_value(items.last())) {
            (Some(ds), Some(d)) => Some(ds.push(d)),
            _ => None,
        }
    }
}

/// Dictionaries from a JSON array text.
pub open spec fn dictionaries_of_value(t: Seq<char>) -> Option<Seq<(i32, Seq<char>, i32)>> {
    match json_array_items(t) {
        Some(items) => dictionaries_of_items(items),
        None => None,
    }
}

/// Claims from the texts of their six fields: all must be present and read.
pub open spec fn claims_of_fields(
    user_id: Option<Seq<char>>,
    user_name: Option<Seq<char>>,
    user_dictionaries: Option<Seq<char>>,
    admin: Option<Seq<char>>,
    exp: Option<Seq<char>>,
    current_lang_index: Option<Seq<char>>,
) -> Option<ClaimsView> {
    let ds = match user_dictionaries {
        Some(t) => dictionaries_of_value(t),
        None => None,
    };
    match (
        field_i32(user_id),
        field_string(user_name),
        ds,
        field_bool(admin),
        field_u64(exp),
        field_usize(current_lang_index),
    ) {
        (Some(a), Some(b), Some(c), Some(d), Some(e), Some(f)) => Some((a, b, c, d, e, f)),
        _ => None,
    }
}

/// Claims from a JSON text: an object with the members `user_id`,
/// `user_name`, `user_dictionaries`, `admin`, `exp` and
/// `current_lang_index` (others are passed over), or an array of those six
/// values. A member named twice is read with its last value, where serde's
/// reading of the claims into a struct refuses the payload.
pub open spec fn claims_of_value(t: Seq<char>) -> Option<ClaimsView> {
    match json_object_members(t) {
        Some(ms) => claims_of_fields(
            member(ms, "user_id"@),
            member(ms, "user_name"@),
            member(ms, "user_dictionaries"@),
            member(ms, "admin"@),
            member(ms, "exp"@),
            member(ms, "current_lang_index"@),
        ),
        None => match json_array_items(t) {
            Some(items) => if items.len() == 6 {
                claims_of_fields(
                    Some(items[0]),
                    Some(items[1]),
                    Some(items[2]),
                    Some(items[3]),
                    Some(items[4]),
                    Some(items[5]),
                )
            } else {
                None
            },
            None => None,
        },
    }
}

/// Where the reading of a prefix of the items fails, the reading of all of
/// them fails.
proof fn lemma_items_prefix_fails(items: Seq<Seq<char>>, k: int)
    requires
        0 <= k <= items.len(),
        dictionaries_of_items(items.take(k)) is None,
    ensures
        dictionaries_of_items(items) is None,
    decreases items.len(),
{
    if k == items.len() {
        assert(items.take(k) == items);
    } else {
        assert(items.drop_last().take(k) == items.take(k));
        lemma_items_prefix_fails(items.drop_last(), k);
    }
}

fn member_text(ms: &Vec<(String, String)>, name: &str) -> (r: Option<String>)
    ensures
        option_string_view(r) == member(pairs_view(ms@), name@),
{
    let ghost pv = pairs_view(ms@);
    let target = String::from_str(name);
    let mut i: usize = 0;
    assert(pv.skip(0) == pv);
    while i < ms.len()
        invariant
            i <= ms@.len(),
            pv == pairs_view(ms@),
            target@ == name@,
            member(pv, name@) == member(pv.skip(i as int), name@),
        decreases ms@.len() - i,
    {
        proof {
            assert(pv.skip(i as int)[0] == pv[i as int]);
            assert(pv.skip(i as int).drop_first() == pv.skip(i + 1));
        }
        if ms[i].0 == target {
            return Some(ms[i].1.clone());
        }
        i = i + 1;
    }
    None
}

fn read_i32(t: Option<String>) -> (r: Option<i32>)
    ensures
        r == field_i32(option_string_view(t)),
{
    match t {
        Some(t) => json_i32(t.as_str()),
        None => None,
    }
}

fn read_u64(t: Option<String>) -> (r: Option<u64>)
    ensures
        r == field_u64(option_string_view(t)),
{
    match t {
        Some(t) => json_u64(t.as_str()),
        None => None,
    }
}

fn read_usize(t: Option<String>) -> (r: Option<usize>)
    ensures
        r == field_usize(option_string_view(t)),
{
    match t {
        Some(t) => json_usize(t.as_str()),
        None => None,
    }
}

fn read_bool(t: Option<String>) -> (r: Option<bool>)
    ensures
        r == field_bool(option_string_view(t)),
{
    match t {
        Some(t) => json_bool(t.as_str()),
        None => None,
    }
}

fn read_string(t: Option<String>) -> (r: Option<String>)
    ensures
        option_string_view(r) == field_string(option_string_view(t)),
{
    match t {
        Some(t) => json_string(t.as_str()),
        None => None,
    }
}

pub open spec fn option_dictionary_view(o: Option<UserDictionary>) -> Option<(i32, Seq<char>, i32)> {
    match o {
        Some(d) => Some(d@),
        None => None,
    }
}

fn dictionary_from_fields(id: Option<String>, name: Option<String>, language: Option<String>) -> (r:
    Option<UserDictionary>)
    ensures
        option_dictionary_view(r) == dictionary_of_fields(
            option_string_view(id),
            option_string_view(name),
            option_string_view(language),
        ),
{
    let a = read_i32(id);
    let b = read_string(name);
    let c = read_i32(language);
    match (a, b, c) {
        (Some(a), Some(b), Some(c)) => Some(UserDictionary { id: a, language_name: b, language_id: c }),
        _ => None,
    }
}

/// Reads a dictionary from any JSON form of it.
pub fn dictionary_from_value(t: &str) -> (r: Option<UserDictionary>)
    ensures
        option_dictionary_view(r) == dictionary_of_value(t@),
{
    match json_members(t) {
        Some(ms) => {
            let id = member_text(&ms, "id");
            let name = member_text(&ms, "language_name");
            let language = member_text(&ms, "language_id");
            dictionary_from_fields(id, name, language)
        },
        None => match json_items(t) {
            Some(items) => {
                if items.len() == 3 {
                    dictionary_from_fields(
                        Some(items[0].clone()),
                        Some(items[1].clone()),
                        Some(items[2].clone()),
                    )
                } else {
                    None
                }
            },
            None => None,
        },
    }
}

/// Reads a list of dictionaries from a JSON array text.
pub fn dictionaries_from_value(t: &str) -> (r: Option<Vec<UserDictionary>>)
    ensures
        match r {
            Some(v) => dictionaries_of_value(t@) == Some(
                v@.map_values(|d: UserDictionary| d@),
            ),
            None => dictionaries_of_value(t@) is None,
        },
{
    let items = match json_items(t) {
        Some(items) => items,
        None => return None,
    };
    let ghost iv = strings_view(items@);
    let mut out: Vec<UserDictionary> = Vec::new();
    let mut i: usize = 0;
    assert(iv.take(0) =~= Seq::<Seq<char>>::empty());
    while i < items.len()
        invariant
            i <= items@.len(),
            iv == strings_view(items@),
            json_array_items(t@) == Some(iv),
            dictionaries_of_items(iv.take(i as int)) == Some(
                out@.map_values(|d: UserDictionary| d@),
            ),
        decreases items@.len() - i,
    {
        let d = dictionary_from_value(items[i].as_str());
        proof {
            assert(iv.take(i + 1).drop_last() == iv.take(i as int));
            assert(iv.take(i + 1).last() == items@[i as int]@);
        }
        match d {
            Some(d) => {
                let ghost before = out@;
                let ghost dv = d@;
                out.push(d);
                proof {
                    assert(out@.map_values(|x: UserDictionary| x@) =~= before.map_values(
                        |x: UserDictionary| x@,
                    ).push(dv));
                }
            },
            None => {
                proof {
                    lemma_items_prefix_fails(iv, i + 1);
                }
                return None;
            },
        }
        i = i + 1;
    }
    assert(iv.take(iv.len() as int) == iv);
    Some(out)
}

fn dictionaries_from_text(t: Option<String>) -> (r: Option<Vec<UserDictionary>>)
    ensures
        match r {
            Some(v) => match option_string_view(t) {
                Some(s) => dictionaries_of_value(s) == Some(v@.map_values(|d: UserDictionary| d@)),
                None => false,
            },
            None => match option_string_view(t) {
                Some(s) => dictionaries_of_value(s) is None,
                None => true,
            },
        },
{
    match t {
        Some(t) => dictionaries_from_value(t.as_str()),
        None => None,
    }
}

fn claims_from_fields(
    user_id: Option<String>,
    user_name: Option<String>,
    user_dictionaries: Option<String>,
    admin: Option<String>,
    exp: Option<String>,
    current_lang_index: Option<String>,
) -> (r: Option<Claims>)
    ensures
        option_claims_view(r) == claims_of_fields(
            option_string_view(user_id),
            option_string_view(user_name),
            option_string_view(user_dictionaries),
            option_string_view(admin),
            option_string_view(exp),
            option_string_view(current_lang_index),
        ),
{
    let a = read_i32(user_id);
    let b = read_string(user_name);
    let c = dictionaries_from_text(user_dictionaries);
    let d = read_bool(admin);
    let e = read_u64(exp);
    let f = read_usize(current_lang_index);
    match (a, b, c, d, e, f) {
        (Some(a), Some(b), Some(c), Some(d), Some(e), Some(f)) => Some(
            Claims {
                user_id: a,
                user_name: b,
                user_dictionaries: c,
                admin: d,
                exp: e,
                current_lang_index: f,
            },
        ),
        _ => None,
    }
}

/// Reads claims from any JSON form of them that `claims_of_value` describes.
pub fn claims_from_value(t: &str) -> (r: Option<Claims>)
    ensures
        option_claims_view(r) == claims_of_value(t@),
{
    match json_members(t) {
        Some(ms) => {
            let a = member_text(&ms, "user_id");
            let b = member_text(&ms, "user_name");
            let c = member_text(&ms, "user_dictionaries");
            let d = member_text(&ms, "admin");
            let e = member_text(&ms, "exp");
            let f = member_text(&ms, "current_lang_index");
            claims_from_fields(a, b, c, d, e, f)
        },
        None => match json_items(t) {
            Some(items) => {
                if items.len() == 6 {
                    claims_from_fields(
                        Some(items[0].clone()),
                        Some(items[1].clone()),
                        Some(items[2].clone()),
                        Some(items[3].clone()),
                        Some(items[4].clone()),
                        Some(items[5].clone()),
                    )
                } else {
                    None
                }
            },
            None => None,
        },
    }
}

} // verus!
