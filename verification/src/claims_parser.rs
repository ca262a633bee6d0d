//! Reading a token payload back into claims: a parser for exactly the JSON
//! text that `claims_json` writes, with the proof that it inverts it.

use vstd::prelude::*;
use crate::text::{chars_of, dec_int, dec_nat, digit_char, push_char, range_equals};
use crate::models::UserDictionary;
use crate::jwt::{
    Claims, ClaimsView, claims_json, dictionaries_json, dictionaries_json_items, dictionary_json, hex_digit,
    json_bool, json_escape, json_escape_char, json_string,
};

verus! {

pub open spec fn is_digit(c: char) -> bool {
    48 <= (c as u32) <= 57
}

pub open spec fn digit_value(c: char) -> int {
    (c as u32) - 48
}

/// How many decimal digits `w` starts with.
pub open spec fn leading_digits(w: Seq<char>) -> nat
    decreases w.len(),
{
    if w.len() > 0 && is_digit(w[0]) {
        1 + leading_digits(w.drop_first())
    } else {
        0
    }
}

/// The number that a sequence of decimal digits denotes.
pub open spec fn digits_value(w: Seq<char>) -> int
    decreases w.len(),
{
    if w.len() == 0 {
        0
    } else {
        digits_value(w.drop_last()) * 10 + digit_value(w.last())
    }
}

/// An unsigned decimal number at the start of `w` that fits in a `u64`, and
/// how many characters it takes.
pub open spec fn parse_u64_prefix(w: Seq<char>) -> Option<(u64, nat)> {
    let k = leading_digits(w);
    if k == 0 {
        None
    } else if digits_value(w.take(k as int)) <= u64::MAX {
        Some((digits_value(w.take(k as int)) as u64, k))
    } else {
        None
    }
}

/// A decimal number with an optional minus sign at the start of `w` that
/// fits in an `i32`, and how many characters it takes.
pub open spec fn parse_i32_prefix(w: Seq<char>) -> Option<(i32, nat)> {
    if w.len() > 0 && w[0] == '-' {
        match parse_u64_prefix(w.drop_first()) {
            Some((m, k)) => if m <= 0x8000_0000 {
                Some(((-(m as int)) as i32, k + 1))
            } else {
                None
            },
            None => None,
        }
    } else {
        match parse_u64_prefix(w) {
            Some((m, k)) => if m <= 0x7fff_ffff {
                Some((m as i32, k))
            } else {
                None
            },
            None => None,
        }
    }
}

/// An unsigned decimal number at the start of `w` that fits in a `usize`.
pub open spec fn parse_usize_prefix(w: Seq<char>) -> Option<(usize, nat)> {
    match parse_u64_prefix(w) {
        Some((m, k)) => if m <= usize::MAX {
            Some((m as usize, k))
        } else {
            None
        },
        None => None,
    }
}


pub open spec fn is_hex_lower(c: char) -> bool {
    is_digit(c) || 97 <= (c as u32) <= 102
}

pub open spec fn hex_value(c: char) -> int {
    if is_digit(c) {
        (c as u32) - 48
    } else {
        (c as u32) - 87
    }
}

/// The first element of a JSON string body at the start of `w`: the
/// character it stands for and how many characters it takes. The escapes
/// read are those that `json_escape_char` writes.
pub open spec fn unescape_first(w: Seq<char>) -> Option<(char, nat)> {
    if w.len() == 0 {
        None
    } else if w[0] != '\\' {
        Some((w[0], 1))
    } else if w.len() < 2 {
        None
    } else if w[1] == '"' {
        Some(('"', 2))
    } else if w[1] == '\\' {
        Some(('\\', 2))
    } else if w[1] == 'n' {
        Some(('\n', 2))
    } else if w[1] == 'r' {
        Some(('\r', 2))
    } else if w[1] == 't' {
        Some(('\t', 2))
    } else if w[1] == 'b' {
        Some(('\u{8}', 2))
    } else if w[1] == 'f' {
        Some(('\u{c}', 2))
    } else if w[1] == 'u' && w.len() >= 6 && w[2] == '0' && w[3] == '0' && is_hex_lower(w[4])
        && is_hex_lower(w[5]) && hex_value(w[4]) * 16 + hex_value(w[5]) < 0x20 {
        Some(((hex_value(w[4]) * 16 + hex_value(w[5])) as char, 6))
    } else {
        None
    }
}

/// The characters of a JSON string body at the start of `w`, up to the
/// closing quote, and how many characters they take before that quote.
pub open spec fn unescape_body(w: Seq<char>) -> Option<(Seq<char>, nat)>
    decreases w.len(),
{
    if w.len() == 0 {
        None
    } else if w[0] == '"' {
        Some((seq![], 0))
    } else {
        match unescape_first(w) {
            None => None,
            Some((c, k)) => if 1 <= k <= w.len() {
                match unescape_body(w.skip(k as int)) {
                    Some((t, m)) => Some((seq![c] + t, k + m)),
                    None => None,
                }
            } else {
                None
            },
        }
    }
}

/// A JSON string at the start of `w`, and how many characters it takes
/// with its quotes.
pub open spec fn parse_string_prefix(w: Seq<char>) -> Option<(Seq<char>, nat)> {
    if w.len() > 0 && w[0] == '"' {
        match unescape_body(w.drop_first()) {
            Some((t, m)) => Some((t, m + 2)),
            None => None,
        }
    } else {
        None
    }
}

pub proof fn lemma_json_escape_first(s: Seq<char>)
    requires
        s.len() > 0,
    ensures
        json_escape(s) == json_escape_char(s[0]) + json_escape(s.drop_first()),
    decreases s.len(),
{
    if s.len() == 1 {
        assert(s.drop_last() =~= Seq::<char>::empty());
        assert(s.drop_first() =~= Seq::<char>::empty());
        assert(json_escape(s.drop_first()) =~= Seq::<char>::empty());
        assert(json_escape(s) =~= json_escape_char(s[0]));
    } else {
        lemma_json_escape_first(s.drop_last());
        assert(s.drop_last().drop_first() == s.drop_first().drop_last());
        assert(s.drop_first().last() == s.last());
        assert(s.drop_last()[0] == s[0]);
    }
}

proof fn lemma_hex(d: int)
    requires
        0 <= d < 16,
    ensures
        is_hex_lower(hex_digit(d)),
        hex_value(hex_digit(d)) == d,
{
}

pub proof fn lemma_unescape_char(c: char, tail: Seq<char>)
    ensures
        json_escape_char(c).len() >= 1,
        (json_escape_char(c) + tail)[0] != '"',
        unescape_first(json_escape_char(c) + tail) == Some((c, json_escape_char(c).len())),
{
    let e = json_escape_char(c);
    let w = e + tail;
    assert(w[0] == e[0]);
    if e.len() >= 2 {
        assert(w[1] == e[1]);
    }
    if e.len() == 6 {
        let u = c as u32;
        lemma_hex((u / 16) as int);
        lemma_hex((u % 16) as int);
        assert(w[2] == e[2]);
        assert(w[3] == e[3]);
        assert(w[4] == e[4]);
        assert(w[5] == e[5]);
        assert((u / 16) * 16 + u % 16 == u);
    }
}

/// The escaped characters of `s` and a closing quote read back as `s`.
pub proof fn lemma_unescape_json(s: Seq<char>, rest: Seq<char>)
    ensures
        unescape_body(json_escape(s) + seq!['"'] + rest) == Some((s, json_escape(s).len())),
    decreases s.len(),
{
    let w = json_escape(s) + seq!['"'] + rest;
    if s.len() == 0 {
        assert(json_escape(s) =~= Seq::<char>::empty());
        assert(w[0] == '"');
        assert(s =~= Seq::<char>::empty());
    } else {
        lemma_json_escape_first(s);
        let e = json_escape_char(s[0]);
        let tail = json_escape(s.drop_first()) + seq!['"'] + rest;
        assert(w =~= e + tail);
        lemma_unescape_char(s[0], tail);
        assert(w.skip(e.len() as int) =~= tail);
        lemma_unescape_json(s.drop_first(), rest);
        assert(seq![s[0]] + s.drop_first() =~= s);
    }
}

pub proof fn lemma_parse_json_string(s: Seq<char>, rest: Seq<char>)
    ensures
        parse_string_prefix(json_string(s) + rest) == Some((s, json_string(s).len())),
{
    let w = json_string(s) + rest;
    assert(w.drop_first() =~= json_escape(s) + seq!['"'] + rest);
    lemma_unescape_json(s, rest);
}

// ---------------------------------------------------------------- lemmas

pub proof fn lemma_leading_digits_exact(w: Seq<char>, k: int)
    requires
        0 <= k <= w.len(),
        forall|i: int| 0 <= i < k ==> is_digit(w[i]),
        k == w.len() || !is_digit(w[k]),
    ensures
        leading_digits(w) == k,
    decreases k,
{
    if k > 0 {
        lemma_leading_digits_exact(w.drop_first(), k - 1);
    }
}

pub proof fn lemma_dec_nat_digits(n: nat)
    ensures
        dec_nat(n).len() >= 1,
        forall|i: int| 0 <= i < dec_nat(n).len() ==> is_digit(#[trigger] dec_nat(n)[i]),
        digits_value(dec_nat(n)) == n,
    decreases n,
{
    let c = digit_char((n % 10) as int);
    assert(digit_value(c) == n % 10);
    if n < 10 {
        assert(dec_nat(n).drop_last() =~= Seq::<char>::empty());
        assert(dec_nat(n).last() == c);
        assert(digits_value(dec_nat(n).drop_last()) == 0);
        assert(digits_value(dec_nat(n)) == n);
    }
    if n >= 10 {
        lemma_dec_nat_digits(n / 10);
        let d = dec_nat(n);
        assert(d.drop_last() == dec_nat(n / 10));
        assert forall|i: int| 0 <= i < d.len() implies is_digit(#[trigger] d[i]) by {
            if i < d.len() - 1 {
                assert(d[i] == dec_nat(n / 10)[i]);
            }
        }
        assert(n == (n / 10) * 10 + n % 10) by (nonlinear_arith);
        assert(d.last() == c);
        assert(digits_value(d) == digits_value(dec_nat(n / 10)) * 10 + digit_value(c));
    }
}

/// A decimal notation followed by a non-digit reads back as its number.
pub proof fn lemma_parse_dec_nat(n: u64, rest: Seq<char>)
    requires
        rest.len() == 0 || !is_digit(rest[0]),
    ensures
        parse_u64_prefix(dec_nat(n as nat) + rest) == Some((n, dec_nat(n as nat).len())),
{
    let d = dec_nat(n as nat);
    let w = d + rest;
    lemma_dec_nat_digits(n as nat);
    assert forall|i: int| 0 <= i < d.len() implies is_digit(w[i]) by {
        assert(w[i] == d[i]);
    }
    if rest.len() > 0 {
        assert(w[d.len() as int] == rest[0]);
    }
    lemma_leading_digits_exact(w, d.len() as int);
    assert(w.take(d.len() as int) == d);
}

pub proof fn lemma_parse_dec_int(i: i32, rest: Seq<char>)
    requires
        rest.len() == 0 || !is_digit(rest[0]),
    ensures
        parse_i32_prefix(dec_int(i as int) + rest) == Some((i, dec_int(i as int).len())),
{
    let w = dec_int(i as int) + rest;
    if i < 0 {
        let m: u64 = (-(i as int)) as u64;
        lemma_parse_dec_nat(m, rest);
        assert(w.drop_first() == dec_nat(m as nat) + rest);
    } else {
        let m: u64 = i as u64;
        lemma_parse_dec_nat(m, rest);
        lemma_dec_nat_digits(m as nat);
        assert(w[0] == dec_nat(m as nat)[0]);
    }
}

pub proof fn lemma_parse_dec_usize(n: usize, rest: Seq<char>)
    requires
        rest.len() == 0 || !is_digit(rest[0]),
    ensures
        parse_usize_prefix(dec_nat(n as nat) + rest) == Some((n, dec_nat(n as nat).len())),
{
    lemma_parse_dec_nat(n as u64, rest);
}


// ------------------------------------------------------ composite readers

/// `x` stands in `w` at position `p`.
pub open spec fn occurs(w: Seq<char>, p: int, x: Seq<char>) -> bool {
    0 <= p && p + x.len() <= w.len() && w.subrange(p, p + x.len()) == x
}

/// The position after the text `lit` where it stands at `p`.
pub open spec fn lit_at(w: Seq<char>, p: int, lit: Seq<char>) -> Option<int> {
    if occurs(w, p, lit) {
        Some(p + lit.len())
    } else {
        None
    }
}

pub open spec fn i32_at(w: Seq<char>, p: int) -> Option<(i32, int)> {
    if 0 <= p <= w.len() {
        at(parse_i32_prefix(w.skip(p)), p)
    } else {
        None
    }
}

pub open spec fn u64_at(w: Seq<char>, p: int) -> Option<(u64, int)> {
    if 0 <= p <= w.len() {
        at(parse_u64_prefix(w.skip(p)), p)
    } else {
        None
    }
}

pub open spec fn usize_at(w: Seq<char>, p: int) -> Option<(usize, int)> {
    if 0 <= p <= w.len() {
        at(parse_usize_prefix(w.skip(p)), p)
    } else {
        None
    }
}

pub open spec fn string_at(w: Seq<char>, p: int) -> Option<(Seq<char>, int)> {
    if 0 <= p <= w.len() {
        at(parse_string_prefix(w.skip(p)), p)
    } else {
        None
    }
}

pub open spec fn bool_at(w: Seq<char>, p: int) -> Option<(bool, int)> {
    match lit_at(w, p, "true"@) {
        Some(e) => Some((true, e)),
        None => match lit_at(w, p, "false"@) {
            Some(e) => Some((false, e)),
            None => None,
        },
    }
}

/// A dictionary object at `p`, as `dictionary_json` writes it.
pub open spec fn dictionary_at(w: Seq<char>, p: int) -> Option<((i32, Seq<char>, i32), int)> {
    match lit_at(w, p, "{\"id\":"@) {
        None => None,
        Some(p1) => match i32_at(w, p1) {
            None => None,
            Some((id, p2)) => match lit_at(w, p2, ",\"language_name\":"@) {
                None => None,
                Some(p3) => match string_at(w, p3) {
                    None => None,
                    Some((name, p4)) => match lit_at(w, p4, ",\"language_id\":"@) {
                        None => None,
                        Some(p5) => match i32_at(w, p5) {
                            None => None,
                            Some((lang, p6)) => match lit_at(w, p6, "}"@) {
                                None => None,
                                Some(p7) => Some(((id, name, lang), p7)),
                            },
                        },
                    },
                },
            },
        },
    }
}

/// The rest of an array of dictionaries at `p`: `]`, or a comma, a
/// dictionary and again the rest.
pub open spec fn dictionaries_tail_at(w: Seq<char>, p: int) -> Option<
    (Seq<(i32, Seq<char>, i32)>, int),
>
    decreases w.len() - p,
{
    if !(0 <= p < w.len()) {
        None
    } else if w[p] == ']' {
        Some((seq![], p + 1))
    } else if w[p] == ',' {
        match dictionary_at(w, p + 1) {
            None => None,
            Some((d, q)) => if p + 1 < q <= w.len() {
                match dictionaries_tail_at(w, q) {
                    Some((ds, e)) => Some((seq![d] + ds, e)),
                    None => None,
                }
            } else {
                None
            },
        }
    } else {
        None
    }
}

/// An array of dictionaries at `p`, as `dictionaries_json` writes it.
pub open spec fn dictionaries_at(w: Seq<char>, p: int) -> Option<
    (Seq<(i32, Seq<char>, i32)>, int),
> {
    match lit_at(w, p, "["@) {
        None => None,
        Some(p1) => if p1 < w.len() && w[p1] == ']' {
            Some((seq![], p1 + 1))
        } else {
            match dictionary_at(w, p1) {
                None => None,
                Some((d, q)) => match dictionaries_tail_at(w, q) {
                    Some((ds, e)) => Some((seq![d] + ds, e)),
                    None => None,
                },
            }
        },
    }
}

/// The claims that a payload text gives, read as `claims_json` writes them;
/// the whole text must be taken.
pub open spec fn claims_at(w: Seq<char>) -> Option<ClaimsView> {
    match lit_at(w, 0, "{\"user_id\":"@) {
        None => None,
        Some(p1) => match i32_at(w, p1) {
            None => None,
            Some((user_id, p2)) => match lit_at(w, p2, ",\"user_name\":"@) {
                None => None,
                Some(p3) => match string_at(w, p3) {
                    None => None,
                    Some((user_name, p4)) => match lit_at(w, p4, ",\"user_dictionaries\":"@) {
                        None => None,
                        Some(p5) => match dictionaries_at(w, p5) {
                            None => None,
                            Some((ds, p6)) => match lit_at(w, p6, ",\"admin\":"@) {
                                None => None,
                                Some(p7) => match bool_at(w, p7) {
                                    None => None,
                                    Some((admin, p8)) => match lit_at(w, p8, ",\"exp\":"@) {
                                        None => None,
                                        Some(p9) => match u64_at(w, p9) {
                                            None => None,
                                            Some((exp, p10)) => match lit_at(
                                                w,
                                                p10,
                                                ",\"current_lang_index\":"@,
                                            ) {
                                                None => None,
                                                Some(p11) => match usize_at(w, p11) {
                                                    None => None,
                                                    Some((idx, p12)) => match lit_at(
                                                        w,
                                                        p12,
                                                        "}"@,
                                                    ) {
                                                        None => None,
                                                        Some(p13) => if p13 == w.len() {
                                                            Some(
                                                                (
                                                                    user_id,
                                                                    user_name,
                                                                    ds,
                                                                    admin,
                                                                    exp,
                                                                    idx,
                                                                ),
                                                            )
                                                        } else {
                                                            None
                                                        },
                                                    },
                                                },
                                            },
                                        },
                                    },
                                },
                            },
                        },
                    },
                },
            },
        },
    }
}

/// The dictionaries after the first, each with a comma before it.
pub open spec fn comma_items(ds: Seq<(i32, Seq<char>, i32)>) -> Seq<char>
    decreases ds.len(),
{
    if ds.len() == 0 {
        seq![]
    } else {
        ","@ + dictionary_json(ds[0]) + comma_items(ds.drop_first())
    }
}

// ----------------------------------------------- lemmas on composite text

pub proof fn lemma_occurs_split(w: Seq<char>, p: int, x: Seq<char>, y: Seq<char>)
    requires
        occurs(w, p, x + y),
    ensures
        occurs(w, p, x),
        occurs(w, p + x.len(), y),
{
    let xy = x + y;
    assert forall|i: int| 0 <= i < x.len() implies w.subrange(p, p + x.len())[i] == x[i] by {
        assert(w.subrange(p, p + xy.len())[i] == xy[i]);
    }
    assert(w.subrange(p, p + x.len()) =~= x);
    assert forall|i: int| 0 <= i < y.len() implies w.subrange(p + x.len(), p + x.len() + y.len())[i]
        == y[i] by {
        assert(w.subrange(p, p + xy.len())[x.len() + i] == xy[x.len() + i]);
    }
    assert(w.subrange(p + x.len(), p + x.len() + y.len()) =~= y);
}

proof fn lemma_skip_occurs(w: Seq<char>, p: int, x: Seq<char>)
    requires
        occurs(w, p, x),
    ensures
        w.skip(p) =~= x + w.skip(p + x.len()),
{
    assert forall|i: int| 0 <= i < x.len() implies w.skip(p)[i] == x[i] by {
        assert(w.subrange(p, p + x.len())[i] == x[i]);
    }
}

/// The character after `x` standing at `p`, if any, is not a digit.
pub open spec fn ends_number(w: Seq<char>, p: int, x: Seq<char>) -> bool {
    p + x.len() == w.len() || !is_digit(w[p + x.len()])
}

pub proof fn lemma_i32_at(w: Seq<char>, p: int, i: i32)
    requires
        occurs(w, p, dec_int(i as int)),
        ends_number(w, p, dec_int(i as int)),
    ensures
        i32_at(w, p) == Some((i, p + dec_int(i as int).len())),
{
    let d = dec_int(i as int);
    let rest = w.skip(p + d.len());
    lemma_skip_occurs(w, p, d);
    if rest.len() > 0 {
        assert(rest[0] == w[p + d.len()]);
    }
    lemma_parse_dec_int(i, rest);
}

pub proof fn lemma_u64_at(w: Seq<char>, p: int, n: u64)
    requires
        occurs(w, p, dec_nat(n as nat)),
        ends_number(w, p, dec_nat(n as nat)),
    ensures
        u64_at(w, p) == Some((n, p + dec_nat(n as nat).len())),
{
    let d = dec_nat(n as nat);
    let rest = w.skip(p + d.len());
    lemma_skip_occurs(w, p, d);
    if rest.len() > 0 {
        assert(rest[0] == w[p + d.len()]);
    }
    lemma_parse_dec_nat(n, rest);
}

pub proof fn lemma_usize_at(w: Seq<char>, p: int, n: usize)
    requires
        occurs(w, p, dec_nat(n as nat)),
        ends_number(w, p, dec_nat(n as nat)),
    ensures
        usize_at(w, p) == Some((n, p + dec_nat(n as nat).len())),
{
    let d = dec_nat(n as nat);
    let rest = w.skip(p + d.len());
    lemma_skip_occurs(w, p, d);
    if rest.len() > 0 {
        assert(rest[0] == w[p + d.len()]);
    }
    lemma_parse_dec_usize(n, rest);
}

pub proof fn lemma_string_at(w: Seq<char>, p: int, s: Seq<char>)
    requires
        occurs(w, p, json_string(s)),
    ensures
        string_at(w, p) == Some((s, p + json_string(s).len())),
{
    let j = json_string(s);
    lemma_skip_occurs(w, p, j);
    lemma_parse_json_string(s, w.skip(p + j.len()));
}

pub proof fn lemma_bool_at(w: Seq<char>, p: int, b: bool)
    requires
        occurs(w, p, json_bool(b)),
    ensures
        bool_at(w, p) == Some((b, p + json_bool(b).len())),
{
    reveal_strlit("true");
    reveal_strlit("false");
    if !b {
        assert(w[p] == w.subrange(p, p + 5)[0]);
        if occurs(w, p, "true"@) {
            assert(w[p] == w.subrange(p, p + 4)[0]);
        }
    }
}

/// A character of a string literal.
proof fn lemma_first_char_after(w: Seq<char>, p: int, x: Seq<char>, y: Seq<char>)
    requires
        occurs(w, p, x + y),
        y.len() > 0,
    ensures
        w[p + x.len()] == y[0],
{
    lemma_occurs_split(w, p, x, y);
    assert(w.subrange(p + x.len(), p + x.len() + y.len())[0] == y[0]);
}

pub proof fn lemma_dictionary_at(w: Seq<char>, p: int, d: (i32, Seq<char>, i32))
    requires
        occurs(w, p, dictionary_json(d)),
    ensures
        dictionary_at(w, p) == Some((d, p + dictionary_json(d).len())),
{
    let l1 = "{\"id\":"@;
    let di = dec_int(d.0 as int);
    let l2 = ",\"language_name\":"@;
    let js = json_string(d.1);
    let l3 = ",\"language_id\":"@;
    let dl = dec_int(d.2 as int);
    let l4 = "}"@;
    reveal_strlit(",\"language_name\":");
    reveal_strlit("}");
    let a1 = l1 + di;
    let a2 = a1 + l2;
    let a3 = a2 + js;
    let a4 = a3 + l3;
    let a5 = a4 + dl;
    assert(dictionary_json(d) == a5 + l4);
    lemma_occurs_split(w, p, a5, l4);
    lemma_occurs_split(w, p, a4, dl);
    lemma_occurs_split(w, p, a3, l3);
    lemma_occurs_split(w, p, a2, js);
    lemma_occurs_split(w, p, a1, l2);
    lemma_occurs_split(w, p, l1, di);
    lemma_first_char_after(w, p, a1, l2);
    lemma_first_char_after(w, p, a5, l4);
    lemma_i32_at(w, p + l1.len(), d.0);
    lemma_string_at(w, p + a2.len(), d.1);
    lemma_i32_at(w, p + a4.len(), d.2);
}

pub proof fn lemma_comma_items_last(ds: Seq<(i32, Seq<char>, i32)>)
    requires
        ds.len() >= 1,
    ensures
        comma_items(ds) == comma_items(ds.drop_last()) + ","@ + dictionary_json(ds.last()),
    decreases ds.len(),
{
    if ds.len() == 1 {
        assert(ds.drop_first() =~= Seq::<(i32, Seq<char>, i32)>::empty());
        assert(ds.drop_last() =~= Seq::<(i32, Seq<char>, i32)>::empty());
        assert(comma_items(ds.drop_first()) =~= Seq::<char>::empty());
        assert(comma_items(ds.drop_last()) =~= Seq::<char>::empty());
        assert(comma_items(ds) =~= ","@ + dictionary_json(ds.last()));
        assert(comma_items(ds.drop_last()) + ","@ + dictionary_json(ds.last()) =~= ","@
            + dictionary_json(ds.last()));
    } else {
        lemma_comma_items_last(ds.drop_first());
        assert(ds.drop_first().drop_last() == ds.drop_last().drop_first());
        assert(ds.drop_last()[0] == ds[0]);
        assert(ds.drop_first().last() == ds.last());
    }
}

pub proof fn lemma_items_first(ds: Seq<(i32, Seq<char>, i32)>)
    requires
        ds.len() >= 1,
    ensures
        dictionaries_json_items(ds) == dictionary_json(ds[0]) + comma_items(ds.drop_first()),
    decreases ds.len(),
{
    if ds.len() == 1 {
        assert(ds.drop_first() =~= Seq::<(i32, Seq<char>, i32)>::empty());
        assert(comma_items(ds.drop_first()) =~= Seq::<char>::empty());
        assert(dictionaries_json_items(ds) =~= dictionary_json(ds[0]) + comma_items(
            ds.drop_first(),
        ));
    } else {
        lemma_items_first(ds.drop_last());
        lemma_comma_items_last(ds.drop_first());
        assert(ds.drop_first().drop_last() == ds.drop_last().drop_first());
        assert(ds.drop_last()[0] == ds[0]);
        assert(ds.drop_first().last() == ds.last());
    }
}

pub proof fn lemma_tail_at(w: Seq<char>, p: int, ds: Seq<(i32, Seq<char>, i32)>)
    requires
        occurs(w, p, comma_items(ds) + "]"@),
    ensures
        dictionaries_tail_at(w, p) == Some((ds, p + comma_items(ds).len() + 1)),
    decreases ds.len(),
{
    reveal_strlit("]");
    reveal_strlit(",");
    let t = comma_items(ds) + "]"@;
    assert(w[p] == w.subrange(p, p + t.len())[0]);
    if ds.len() == 0 {
        assert(comma_items(ds) =~= Seq::<char>::empty());
    } else {
        let dj = dictionary_json(ds[0]);
        let rest = comma_items(ds.drop_first());
        assert(t == ","@ + dj + (rest + "]"@));
        lemma_occurs_split(w, p, ","@ + dj, rest + "]"@);
        lemma_occurs_split(w, p, ","@, dj);
        lemma_dictionary_at(w, p + 1, ds[0]);
        assert(dj.len() >= 1) by {
            reveal_strlit("{\"id\":");
        }
        lemma_tail_at(w, p + 1 + dj.len(), ds.drop_first());
        assert(seq![ds[0]] + ds.drop_first() =~= ds);
    }
}

#[verifier::rlimit(60)]
pub proof fn lemma_dictionaries_at(w: Seq<char>, p: int, ds: Seq<(i32, Seq<char>, i32)>)
    requires
        occurs(w, p, dictionaries_json(ds)),
    ensures
        dictionaries_at(w, p) == Some((ds, p + dictionaries_json(ds).len())),
{
    reveal_strlit("[");
    reveal_strlit("]");
    reveal_strlit("{\"id\":");
    let items = dictionaries_json_items(ds);
    lemma_occurs_split(w, p, "["@ + items, "]"@);
    lemma_occurs_split(w, p, "["@, items);
    if ds.len() == 0 {
        assert(items =~= Seq::<char>::empty());
        lemma_first_char_after(w, p, "["@ + items, "]"@);
    } else {
        lemma_items_first(ds);
        let dj = dictionary_json(ds[0]);
        let rest = comma_items(ds.drop_first());
        assert(dictionaries_json(ds) == "["@ + dj + (rest + "]"@));
        lemma_occurs_split(w, p, "["@ + dj, rest + "]"@);
        lemma_occurs_split(w, p, "["@, dj);
        assert(dj == "{\"id\":"@ + (dj.subrange(6, dj.len() as int)));
        lemma_first_char_after(w, p, "["@, dj);
        lemma_dictionary_at(w, p + 1, ds[0]);
        lemma_tail_at(w, p + 1 + dj.len(), ds.drop_first());
        assert(seq![ds[0]] + ds.drop_first() =~= ds);
    }
}

proof fn lemma_claims_at_from_pieces(
    w: Seq<char>,
    c: ClaimsView,
    p0: int,
    p1: int,
    p2: int,
    p3: int,
    p4: int,
    p5: int,
    p6: int,
    p7: int,
    p8: int,
    p9: int,
    p10: int,
    p11: int,
    p12: int,
)
    requires
        lit_at(w, 0, "{\"user_id\":"@) == Some(p0),
        i32_at(w, p0) == Some((c.0, p1)),
        lit_at(w, p1, ",\"user_name\":"@) == Some(p2),
        string_at(w, p2) == Some((c.1, p3)),
        lit_at(w, p3, ",\"user_dictionaries\":"@) == Some(p4),
        dictionaries_at(w, p4) == Some((c.2, p5)),
        lit_at(w, p5, ",\"admin\":"@) == Some(p6),
        bool_at(w, p6) == Some((c.3, p7)),
        lit_at(w, p7, ",\"exp\":"@) == Some(p8),
        u64_at(w, p8) == Some((c.4, p9)),
        lit_at(w, p9, ",\"current_lang_index\":"@) == Some(p10),
        usize_at(w, p10) == Some((c.5, p11)),
        lit_at(w, p11, "}"@) == Some(p12),
        p12 == w.len(),
    ensures
        claims_at(w) == Some(c),
{
}

/// Where each of thirteen consecutive pieces of `w` stands.
proof fn lemma_layout(
    w: Seq<char>,
    l1: Seq<char>,
    v1: Seq<char>,
    l2: Seq<char>,
    v2: Seq<char>,
    l3: Seq<char>,
    v3: Seq<char>,
    l4: Seq<char>,
    v4: Seq<char>,
    l5: Seq<char>,
    v5: Seq<char>,
    l6: Seq<char>,
    v6: Seq<char>,
    l7: Seq<char>,
)
    requires
        w == l1 + v1 + l2 + v2 + l3 + v3 + l4 + v4 + l5 + v5 + l6 + v6 + l7,
    ensures
        occurs(w, 0, l1),
        occurs(w, l1.len() as int, v1),
        occurs(w, l1.len() as int + v1.len(), l2),
        occurs(w, l1.len() as int + v1.len() + l2.len(), v2),
        occurs(w, l1.len() as int + v1.len() + l2.len() + v2.len(), l3),
        occurs(w, l1.len() as int + v1.len() + l2.len() + v2.len() + l3.len(), v3),
        occurs(w, l1.len() as int + v1.len() + l2.len() + v2.len() + l3.len() + v3.len(), l4),
        occurs(w, l1.len() as int + v1.len() + l2.len() + v2.len() + l3.len() + v3.len() + l4.len(), v4),
        occurs(w, l1.len() as int + v1.len() + l2.len() + v2.len() + l3.len() + v3.len() + l4.len() + v4.len(), l5),
        occurs(w, l1.len() as int + v1.len() + l2.len() + v2.len() + l3.len() + v3.len() + l4.len() + v4.len() + l5.len(), v5),
        occurs(w, l1.len() as int + v1.len() + l2.len() + v2.len() + l3.len() + v3.len() + l4.len() + v4.len() + l5.len() + v5.len(), l6),
        occurs(w, l1.len() as int + v1.len() + l2.len() + v2.len() + l3.len() + v3.len() + l4.len() + v4.len() + l5.len() + v5.len() + l6.len(), v6),
        occurs(w, l1.len() as int + v1.len() + l2.len() + v2.len() + l3.len() + v3.len() + l4.len() + v4.len() + l5.len() + v5.len() + l6.len() + v6.len(), l7),
        l2.len() > 0 ==> w[l1.len() as int + v1.len()] == l2[0],
        l6.len() > 0 ==> w[l1.len() as int + v1.len() + l2.len() + v2.len() + l3.len() + v3.len() + l4.len() + v4.len() + l5.len() + v5.len()] == l6[0],
        l7.len() > 0 ==> w[l1.len() as int + v1.len() + l2.len() + v2.len() + l3.len() + v3.len() + l4.len() + v4.len() + l5.len() + v5.len() + l6.len() + v6.len()] == l7[0],
        w.len() == l1.len() as int + v1.len() + l2.len() + v2.len() + l3.len() + v3.len() + l4.len() + v4.len() + l5.len() + v5.len() + l6.len() + v6.len() + l7.len(),
{
    assert(occurs(w, 0, w)) by {
        assert(w.subrange(0, w.len() as int) =~= w);
    }
    lemma_occurs_split(w, 0, (((((((((((l1 + v1) + l2) + v2) + l3) + v3) + l4) + v4) + l5) + v5) + l6) + v6), l7);
    lemma_occurs_split(w, 0, ((((((((((l1 + v1) + l2) + v2) + l3) + v3) + l4) + v4) + l5) + v5) + l6), v6);
    lemma_occurs_split(w, 0, (((((((((l1 + v1) + l2) + v2) + l3) + v3) + l4) + v4) + l5) + v5), l6);
    lemma_occurs_split(w, 0, ((((((((l1 + v1) + l2) + v2) + l3) + v3) + l4) + v4) + l5), v5);
    lemma_occurs_split(w, 0, (((((((l1 + v1) + l2) + v2) + l3) + v3) + l4) + v4), l5);
    lemma_occurs_split(w, 0, ((((((l1 + v1) + l2) + v2) + l3) + v3) + l4), v4);
    lemma_occurs_split(w, 0, (((((l1 + v1) + l2) + v2) + l3) + v3), l4);
    lemma_occurs_split(w, 0, ((((l1 + v1) + l2) + v2) + l3), v3);
    lemma_occurs_split(w, 0, (((l1 + v1) + l2) + v2), l3);
    lemma_occurs_split(w, 0, ((l1 + v1) + l2), v2);
    lemma_occurs_split(w, 0, (l1 + v1), l2);
    lemma_occurs_split(w, 0, l1, v1);
    if l2.len() > 0 {
        lemma_first_char_after(w, 0, (l1 + v1), l2);
    }
    if l6.len() > 0 {
        lemma_first_char_after(w, 0, (((((((((l1 + v1) + l2) + v2) + l3) + v3) + l4) + v4) + l5) + v5), l6);
    }
    if l7.len() > 0 {
        lemma_first_char_after(w, 0, (((((((((((l1 + v1) + l2) + v2) + l3) + v3) + l4) + v4) + l5) + v5) + l6) + v6), l7);
    }
}

/// Reading a payload back gives the claims it was written from.
#[verifier::rlimit(60)]
pub proof fn lemma_claims_roundtrip(c: ClaimsView)
    ensures
        claims_at(claims_json(c)) == Some(c),
{
    let w = claims_json(c);
    let l1 = "{\"user_id\":"@;
    let v1 = dec_int(c.0 as int);
    let l2 = ",\"user_name\":"@;
    let v2 = json_string(c.1);
    let l3 = ",\"user_dictionaries\":"@;
    let v3 = dictionaries_json(c.2);
    let l4 = ",\"admin\":"@;
    let v4 = json_bool(c.3);
    let l5 = ",\"exp\":"@;
    let v5 = dec_nat(c.4 as nat);
    let l6 = ",\"current_lang_index\":"@;
    let v6 = dec_nat(c.5 as nat);
    let l7 = "}"@;
    lemma_layout(w, l1, v1, l2, v2, l3, v3, l4, v4, l5, v5, l6, v6, l7);
    assert(l2.len() > 0 && !is_digit(l2[0]) && l6.len() > 0 && !is_digit(l6[0]) && l7.len() > 0
        && !is_digit(l7[0])) by {
        reveal_strlit(",\"user_name\":");
        reveal_strlit(",\"current_lang_index\":");
        reveal_strlit("}");
    }
    let p1 = l1.len() as int;
    let p2 = p1 + v1.len();
    let p3 = p2 + l2.len();
    let p4 = p3 + v2.len();
    let p5 = p4 + l3.len();
    let p6 = p5 + v3.len();
    let p7 = p6 + l4.len();
    let p8 = p7 + v4.len();
    let p9 = p8 + l5.len();
    let p10 = p9 + v5.len();
    let p11 = p10 + l6.len();
    let p12 = p11 + v6.len();
    lemma_i32_at(w, p1, c.0);
    lemma_string_at(w, p3, c.1);
    lemma_dictionaries_at(w, p5, c.2);
    lemma_bool_at(w, p7, c.3);
    lemma_u64_at(w, p9, c.4);
    lemma_usize_at(w, p11, c.5);
    lemma_claims_at_from_pieces(w, c, p1, p2, p3, p4, p5, p6, p7, p8, p9, p10, p11, p12, w.len() as int);
}

// ------------------------------------------------------------ executable

fn is_digit_char(c: char) -> (r: bool)
    ensures
        r == is_digit(c),
{
    let u = c as u32;
    48 <= u && u <= 57
}

/// The result of a parser at `pos`, with the length it took turned into the
/// position after it.
pub open spec fn at<T>(r: Option<(T, nat)>, pos: int) -> Option<(T, int)> {
    match r {
        Some((x, k)) => Some((x, pos + k)),
        None => None,
    }
}

/// Reads an unsigned decimal number at `v[pos..]`.
pub fn parse_u64_at(v: &Vec<char>, pos: usize) -> (r: Option<(u64, usize)>)
    requires
        pos <= v.len(),
    ensures
        match r {
            Some((n, e)) => at(parse_u64_prefix(v@.skip(pos as int)), pos as int) == Some((n, e as int))
                && e <= v.len(),
            None => parse_u64_prefix(v@.skip(pos as int)) is None,
        },
{
    let mut i = pos;
    let mut acc: u64 = 0;
    let mut overflow = false;
    assert(v@.subrange(pos as int, pos as int) =~= Seq::<char>::empty());
    while i < v.len() && is_digit_char(v[i])
        invariant
            pos <= i <= v.len(),
            forall|j: int| pos <= j < i ==> is_digit(v@[j]),
            !overflow ==> acc == digits_value(v@.subrange(pos as int, i as int)),
            overflow ==> digits_value(v@.subrange(pos as int, i as int)) > u64::MAX,
        decreases v.len() - i,
    {
        let d: u64 = ((v[i] as u32) - 48) as u64;
        proof {
            let sub = v@.subrange(pos as int, i + 1);
            assert(sub.drop_last() == v@.subrange(pos as int, i as int));
            assert(sub.last() == v@[i as int]);
            assert(digits_value(sub) == digits_value(v@.subrange(pos as int, i as int)) * 10
                + digit_value(v@[i as int]));
        }
        if !overflow {
            let next: u128 = (acc as u128) * 10 + (d as u128);
            if next > (u64::MAX as u128) {
                overflow = true;
            } else {
                acc = next as u64;
            }
        }
        i = i + 1;
    }
    let ghost w = v@.skip(pos as int);
    proof {
        lemma_leading_digits_exact(w, i - pos);
        assert(w.take(i - pos) == v@.subrange(pos as int, i as int));
    }
    if i == pos || overflow {
        None
    } else {
        Some((acc, i))
    }
}

/// Reads a decimal number with an optional minus sign at `v[pos..]`.
pub fn parse_i32_at(v: &Vec<char>, pos: usize) -> (r: Option<(i32, usize)>)
    requires
        pos <= v.len(),
    ensures
        match r {
            Some((n, e)) => at(parse_i32_prefix(v@.skip(pos as int)), pos as int) == Some((n, e as int))
                && e <= v.len(),
            None => parse_i32_prefix(v@.skip(pos as int)) is None,
        },
{
    let ghost w = v@.skip(pos as int);
    if pos < v.len() && v[pos] == '-' {
        assert(w.drop_first() == v@.skip(pos + 1));
        match parse_u64_at(v, pos + 1) {
            Some((m, e)) => {
                if m <= 0x8000_0000 {
                    let n: i64 = -(m as i64);
                    Some((n as i32, e))
                } else {
                    None
                }
            },
            None => None,
        }
    } else {
        match parse_u64_at(v, pos) {
            Some((m, e)) => {
                if m <= 0x7fff_ffff {
                    Some((m as i32, e))
                } else {
                    None
                }
            },
            None => None,
        }
    }
}

/// Reads an unsigned decimal number that fits in a `usize` at `v[pos..]`.
pub fn parse_usize_at(v: &Vec<char>, pos: usize) -> (r: Option<(usize, usize)>)
    requires
        pos <= v.len(),
    ensures
        match r {
            Some((n, e)) => at(parse_usize_prefix(v@.skip(pos as int)), pos as int) == Some((n, e as int))
                && e <= v.len(),
            None => parse_usize_prefix(v@.skip(pos as int)) is None,
        },
{
    match parse_u64_at(v, pos) {
        Some((m, e)) => {
            if m <= (usize::MAX as u64) {
                Some((m as usize, e))
            } else {
                None
            }
        },
        None => None,
    }
}


fn is_hex_lower_char(c: char) -> (r: bool)
    ensures
        r == is_hex_lower(c),
{
    let u = c as u32;
    (48 <= u && u <= 57) || (97 <= u && u <= 102)
}

fn hex_value_of(c: char) -> (r: u32)
    requires
        is_hex_lower(c),
    ensures
        r == hex_value(c),
        r < 16,
{
    let u = c as u32;
    if u <= 57 {
        u - 48
    } else {
        u - 87
    }
}

fn unescape_first_at(v: &Vec<char>, i: usize) -> (r: Option<(char, usize)>)
    requires
        i < v.len(),
    ensures
        match r {
            Some((c, e)) => at(unescape_first(v@.skip(i as int)), i as int) == Some((c, e as int)),
            None => unescape_first(v@.skip(i as int)) is None,
        },
{
    let ghost w = v@.skip(i as int);
    assert(w[0] == v@[i as int]);
    if v[i] != '\\' {
        return Some((v[i], i + 1));
    }
    if i + 1 >= v.len() {
        return None;
    }
    assert(w[1] == v@[i + 1]);
    let c = v[i + 1];
    if c == '"' {
        Some(('"', i + 2))
    } else if c == '\\' {
        Some(('\\', i + 2))
    } else if c == 'n' {
        Some(('\n', i + 2))
    } else if c == 'r' {
        Some(('\r', i + 2))
    } else if c == 't' {
        Some(('\t', i + 2))
    } else if c == 'b' {
        Some(('\u{8}', i + 2))
    } else if c == 'f' {
        Some(('\u{c}', i + 2))
    } else if c == 'u' && v.len() - i >= 6 && v[i + 2] == '0' && v[i + 3] == '0'
        && is_hex_lower_char(v[i + 4]) && is_hex_lower_char(v[i + 5]) {
        assert(w[2] == v@[i + 2] && w[3] == v@[i + 3] && w[4] == v@[i + 4] && w[5] == v@[i + 5]);
        let code = hex_value_of(v[i + 4]) * 16 + hex_value_of(v[i + 5]);
        if code < 0x20 {
            let b: u8 = code as u8;
            Some((b as char, i + 6))
        } else {
            None
        }
    } else {
        proof {
            if c == 'u' && v.len() - i >= 6 {
                assert(w[2] == v@[i + 2] && w[3] == v@[i + 3] && w[4] == v@[i + 4] && w[5]
                    == v@[i + 5]);
            }
        }
        None
    }
}

/// Reads a JSON string at `v[pos..]`.
pub fn parse_string_at(v: &Vec<char>, pos: usize) -> (r: Option<(String, usize)>)
    requires
        pos <= v.len(),
    ensures
        match r {
            Some((s, e)) => at(parse_string_prefix(v@.skip(pos as int)), pos as int) == Some(
                (s@, e as int),
            ) && e <= v.len(),
            None => parse_string_prefix(v@.skip(pos as int)) is None,
        },
{
    let ghost w = v@.skip(pos as int);
    if pos >= v.len() || v[pos] != '"' {
        return None;
    }
    assert(w.drop_first() == v@.skip(pos + 1));
    let mut out = String::new();
    let mut i = pos + 1;
    loop
        invariant
            pos + 1 <= i <= v.len(),
            parse_string_prefix(v@.skip(pos as int)) == match unescape_body(v@.skip(pos + 1)) {
                Some((t, m)) => Some((t, m + 2)),
                None => None,
            },
            unescape_body(v@.skip(pos + 1)) == match unescape_body(v@.skip(i as int)) {
                Some((t, m)) => Some((out@ + t, ((i - pos - 1) + m) as nat)),
                None => None,
            },
        decreases v.len() - i,
    {
        let ghost u = v@.skip(i as int);
        if i >= v.len() {
            assert(u.len() == 0);
            return None;
        }
        assert(u[0] == v@[i as int]);
        if v[i] == '"' {
            assert(out@ + Seq::<char>::empty() == out@);
            return Some((out, i + 1));
        }
        match unescape_first_at(v, i) {
            None => {
                return None;
            },
            Some((c, e)) => {
                assert(u.skip(e - i) == v@.skip(e as int));
                push_char(&mut out, c);
                proof {
                    let ghost o = out@;
                    assert forall|t: Seq<char>| o + t == (o.drop_last() + (seq![c] + t)) by {
                        assert(o + t =~= o.drop_last() + (seq![c] + t));
                    }
                }
                i = e;
            },
        }
    }
}

fn lit_at_exec(v: &Vec<char>, p: usize, lit: &str) -> (r: Option<usize>)
    requires
        p <= v.len(),
    ensures
        match r {
            Some(e) => lit_at(v@, p as int, lit@) == Some(e as int) && e <= v.len(),
            None => lit_at(v@, p as int, lit@) is None,
        },
{
    let l = chars_of(lit);
    if v.len() - p < l.len() {
        return None;
    }
    if range_equals(v, p, p + l.len(), &l) {
        Some(p + l.len())
    } else {
        None
    }
}

fn parse_bool_at(v: &Vec<char>, p: usize) -> (r: Option<(bool, usize)>)
    requires
        p <= v.len(),
    ensures
        match r {
            Some((b, e)) => bool_at(v@, p as int) == Some((b, e as int)) && e <= v.len(),
            None => bool_at(v@, p as int) is None,
        },
{
    match lit_at_exec(v, p, "true") {
        Some(e) => Some((true, e)),
        None => match lit_at_exec(v, p, "false") {
            Some(e) => Some((false, e)),
            None => None,
        },
    }
}

fn parse_dictionary_at(v: &Vec<char>, p: usize) -> (r: Option<(UserDictionary, usize)>)
    requires
        p <= v.len(),
    ensures
        match r {
            Some((d, e)) => dictionary_at(v@, p as int) == Some((d@, e as int)) && p < e <= v.len(),
            None => dictionary_at(v@, p as int) is None,
        },
{
    proof {
        reveal_strlit("{\"id\":");
    }
    let p1 = lit_at_exec(v, p, "{\"id\":")?;
    let (id, p2) = parse_i32_at(v, p1)?;
    let p3 = lit_at_exec(v, p2, ",\"language_name\":")?;
    let (language_name, p4) = parse_string_at(v, p3)?;
    let p5 = lit_at_exec(v, p4, ",\"language_id\":")?;
    let (language_id, p6) = parse_i32_at(v, p5)?;
    let p7 = lit_at_exec(v, p6, "}")?;
    Some((UserDictionary { id, language_name, language_id }, p7))
}

pub open spec fn dictionary_views(ds: Seq<UserDictionary>) -> Seq<(i32, Seq<char>, i32)> {
    ds.map_values(|d: UserDictionary| d@)
}

fn parse_dictionaries_at(v: &Vec<char>, p: usize) -> (r: Option<(Vec<UserDictionary>, usize)>)
    requires
        p <= v.len(),
    ensures
        match r {
            Some((ds, e)) => dictionaries_at(v@, p as int) == Some((dictionary_views(ds@), e as int))
                && e <= v.len(),
            None => dictionaries_at(v@, p as int) is None,
        },
{
    let p1 = lit_at_exec(v, p, "[")?;
    if p1 < v.len() && v[p1] == ']' {
        let empty: Vec<UserDictionary> = Vec::new();
        assert(dictionary_views(empty@) =~= Seq::<(i32, Seq<char>, i32)>::empty());
        return Some((empty, p1 + 1));
    }
    let (d, q0) = parse_dictionary_at(v, p1)?;
    let mut out: Vec<UserDictionary> = Vec::new();
    out.push(d);
    let mut q = q0;
    assert(dictionary_views(out@) =~= seq![d@]);
    loop
        invariant
            q <= v.len(),
            dictionaries_at(v@, p as int) == match dictionaries_tail_at(v@, q as int) {
                Some((ds, e)) => Some((dictionary_views(out@) + ds, e)),
                None => None,
            },
        decreases v.len() - q,
    {
        if q >= v.len() {
            return None;
        }
        if v[q] == ']' {
            assert(dictionary_views(out@) + Seq::<(i32, Seq<char>, i32)>::empty() =~= dictionary_views(
                out@,
            ));
            return Some((out, q + 1));
        }
        if v[q] != ',' {
            return None;
        }
        match parse_dictionary_at(v, q + 1) {
            None => {
                return None;
            },
            Some((d, q2)) => {
                let ghost before = dictionary_views(out@);
                let ghost dv = d@;
                out.push(d);
                proof {
                    assert(dictionary_views(out@) =~= before.push(dv));
                    assert forall|ds: Seq<(i32, Seq<char>, i32)>| before + (seq![dv] + ds) == dictionary_views(out@) + ds by {
                        assert(before + (seq![dv] + ds) =~= before.push(dv) + ds);
                    }
                }
                q = q2;
            },
        }
    }
}

/// Reads the claims from a payload text in the form that `claims_json`
/// writes.
pub fn parse_claims(s: &str) -> (r: Option<Claims>)
    ensures
        match r {
            Some(c) => claims_at(s@) == Some(c@),
            None => claims_at(s@) is None,
        },
{
    let v = chars_of(s);
    let p1 = lit_at_exec(&v, 0, "{\"user_id\":")?;
    let (user_id, p2) = parse_i32_at(&v, p1)?;
    let p3 = lit_at_exec(&v, p2, ",\"user_name\":")?;
    let (user_name, p4) = parse_string_at(&v, p3)?;
    let p5 = lit_at_exec(&v, p4, ",\"user_dictionaries\":")?;
    let (user_dictionaries, p6) = parse_dictionaries_at(&v, p5)?;
    let p7 = lit_at_exec(&v, p6, ",\"admin\":")?;
    let (admin, p8) = parse_bool_at(&v, p7)?;
    let p9 = lit_at_exec(&v, p8, ",\"exp\":")?;
    let (exp, p10) = parse_u64_at(&v, p9)?;
    let p11 = lit_at_exec(&v, p10, ",\"current_lang_index\":")?;
    let (current_lang_index, p12) = parse_usize_at(&v, p11)?;
    let p13 = lit_at_exec(&v, p12, "}")?;
    if p13 != v.len() {
        return None;
    }
    let c = Claims { user_id, user_name, user_dictionaries, admin, exp, current_lang_index };
    assert(c@.2 == dictionary_views(c.user_dictionaries@));
    Some(c)
}

} // verus!
