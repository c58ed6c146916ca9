use vstd::prelude::*;
use vstd::std_specs::iter::IteratorSpec;

verus! {

broadcast use vstd::string::group_string_axioms, vstd::std_specs::vec::axiom_spec_len;

/// A JSON value. Numbers keep their literal text: the wire protocol carries
/// none that the client reads.
#[derive(Debug)]
pub enum Json {
    Null,
    Bool(bool),
    Num(String),
    Str(String),
    Arr(Vec<Json>),
    Obj(Vec<(String, Json)>),
}

/// The mathematical value of a JSON value.
pub enum SpecJson {
    Null,
    Bool(bool),
    Num(Seq<char>),
    Str(Seq<char>),
    Arr(Seq<SpecJson>),
    Obj(Seq<(Seq<char>, SpecJson)>),
}

/// The mathematical values of the first `n` values of a list.
pub open spec fn jsons_view(items: Seq<Json>, n: int) -> Seq<SpecJson>
    decreases items, n,
{
    if n <= 0 || n > items.len() {
        Seq::empty()
    } else {
        jsons_view(items, n - 1).push(json_view(items[n - 1]))
    }
}

/// The mathematical values of the first `n` members of an object.
pub open spec fn fields_view(fields: Seq<(String, Json)>, n: int) -> Seq<(Seq<char>, SpecJson)>
    decreases fields, n,
{
    if n <= 0 || n > fields.len() {
        Seq::empty()
    } else {
        fields_view(fields, n - 1).push((fields[n - 1].0@, json_view(fields[n - 1].1)))
    }
}

/// The mathematical value of one JSON value.
pub open spec fn json_view(v: Json) -> SpecJson
    decreases v, 0int,
{
    match v {
        Json::Null => SpecJson::Null,
        Json::Bool(b) => SpecJson::Bool(b),
        Json::Num(s) => SpecJson::Num(s@),
        Json::Str(s) => SpecJson::Str(s@),
        Json::Arr(items) => SpecJson::Arr(jsons_view(items@, items@.len() as int)),
        Json::Obj(fields) => SpecJson::Obj(fields_view(fields@, fields@.len() as int)),
    }
}

pub open spec fn jsons_view_all(items: Seq<Json>) -> Seq<SpecJson> {
    jsons_view(items, items.len() as int)
}

pub open spec fn fields_view_all(fields: Seq<(String, Json)>) -> Seq<(Seq<char>, SpecJson)> {
    fields_view(fields, fields.len() as int)
}

pub proof fn lemma_jsons_view_index(items: Seq<Json>, n: int, k: int)
    requires
        0 <= k < n <= items.len(),
    ensures
        jsons_view(items, n).len() == n,
        jsons_view(items, n)[k] == json_view(items[k]),
    decreases n,
{
    lemma_jsons_view_len(items, n);
    lemma_jsons_view_len(items, n - 1);
    if k < n - 1 {
        lemma_jsons_view_index(items, n - 1, k);
    }
}

pub proof fn lemma_fields_view_index(fields: Seq<(String, Json)>, n: int, k: int)
    requires
        0 <= k < n <= fields.len(),
    ensures
        fields_view(fields, n).len() == n,
        fields_view(fields, n)[k] == (fields[k].0@, json_view(fields[k].1)),
    decreases n,
{
    lemma_fields_view_len(fields, n);
    lemma_fields_view_len(fields, n - 1);
    if k < n - 1 {
        lemma_fields_view_index(fields, n - 1, k);
    }
}

pub proof fn lemma_jsons_view_len(items: Seq<Json>, n: int)
    requires
        0 <= n <= items.len(),
    ensures
        jsons_view(items, n).len() == n,
    decreases n,
{
    if n > 0 {
        lemma_jsons_view_len(items, n - 1);
    }
}

pub proof fn lemma_fields_view_len(fields: Seq<(String, Json)>, n: int)
    requires
        0 <= n <= fields.len(),
    ensures
        fields_view(fields, n).len() == n,
    decreases n,
{
    if n > 0 {
        lemma_fields_view_len(fields, n - 1);
    }
}

/// A prefix view does not change when the list grows on the right.
pub proof fn lemma_jsons_view_prefix(items: Seq<Json>, v: Json, n: int)
    requires
        0 <= n <= items.len(),
    ensures
        jsons_view(items.push(v), n) == jsons_view(items, n),
    decreases n,
{
    if n > 0 {
        lemma_jsons_view_prefix(items, v, n - 1);
        assert(items.push(v)[n - 1] == items[n - 1]);
    }
}

pub proof fn lemma_jsons_view_push(items: Seq<Json>, v: Json)
    ensures
        jsons_view_all(items.push(v)) == jsons_view_all(items).push(json_view(v)),
{
    lemma_jsons_view_prefix(items, v, items.len() as int);
    assert(items.push(v)[items.len() as int] == v);
}

pub proof fn lemma_fields_view_prefix(fields: Seq<(String, Json)>, p: (String, Json), n: int)
    requires
        0 <= n <= fields.len(),
    ensures
        fields_view(fields.push(p), n) == fields_view(fields, n),
    decreases n,
{
    if n > 0 {
        lemma_fields_view_prefix(fields, p, n - 1);
        assert(fields.push(p)[n - 1] == fields[n - 1]);
    }
}

pub proof fn lemma_fields_view_push(fields: Seq<(String, Json)>, p: (String, Json))
    ensures
        fields_view_all(fields.push(p)) == fields_view_all(fields).push((p.0@, json_view(p.1))),
{
    lemma_fields_view_prefix(fields, p, fields.len() as int);
    assert(fields.push(p)[fields.len() as int] == p);
}

// ---------------------------------------------------------------------------
// Character helpers.
// ---------------------------------------------------------------------------

/// Relies on String::push: appends one character.
#[verifier::external_body]
pub fn push_char(s: &mut String, c: char)
    ensures
        final(s)@ == old(s)@.push(c),
{
    s.push(c);
}

/// Relies on char::from_u32: a character for every code point outside the
/// surrogate range and at most 0x10FFFF, nothing otherwise.
#[verifier::external_body]
pub fn char_from_u32(v: u32) -> (r: Option<char>)
    ensures
        r is Some <==> (v < 0xD800 || (0xE000 <= v && v <= 0x10FFFF)),
        match r {
            Some(c) => c as u32 == v,
            None => true,
        },
{
    char::from_u32(v)
}

/// The character with the given code point.
pub open spec fn char_of(code: int) -> char {
    choose|c: char| (#[trigger] (c as u32)) == code
}

/// A character is determined by its code point.
pub proof fn lemma_char_of(ch: char)
    ensures
        char_of(ch as u32 as int) == ch,
{
    assert(ch as u32 == ch as u32);
    assert((char_of(ch as u32 as int)) as u32 == ch as u32);
}

/// The characters of a string, in order, as a vector.
pub fn str_chars(s: &str) -> (r: Vec<char>)
    ensures
        r@ == s@,
{
    let mut it = s.chars();
    let mut r: Vec<char> = Vec::new();
    loop
        invariant
            it.remaining() =~= s@.skip(r@.len() as int),
            r@.len() <= s@.len(),
            r@ =~= s@.take(r@.len() as int),
        decreases s@.len() - r@.len(),
    {
        match it.next() {
            Some(c) => {
                proof {
                    assert(s@.skip(r@.len() as int)[0] == s@[r@.len() as int]);
                    assert(s@.skip(r@.len() as int).drop_first() =~= s@.skip(r@.len() as int + 1));
                    assert(s@.take(r@.len() as int).push(s@[r@.len() as int]) =~= s@.take(
                        r@.len() as int + 1,
                    ));
                }
                r.push(c);
            },
            None => {
                proof {
                    assert(r@ =~= s@);
                }
                return r;
            },
        }
    }
}

// ---------------------------------------------------------------------------
// The grammar, as specification functions. Each mirrors the parser below;
// the parser's contracts equate the two. The bound checks that look
// redundant keep the recursion visibly decreasing; the parser's progress
// facts show they never fire.
// ---------------------------------------------------------------------------

/// Whether a character is JSON whitespace.
pub open spec fn spec_is_ws(c: char) -> bool {
    c == ' ' || c == '\t' || c == '\n' || c == '\r'
}

/// Whether a character can continue a JSON number literal.
pub open spec fn spec_is_num_char(c: char) -> bool {
    (48 <= c as u32 && c as u32 <= 57) || c == '-' || c == '+' || c == '.' || c == 'e' || c == 'E'
}

/// The value of a hexadecimal digit.
pub open spec fn spec_hex_val(c: char) -> Option<u32> {
    if 48 <= c as u32 && c as u32 <= 57 {
        Some((c as u32 - 48) as u32)
    } else if 97 <= c as u32 && c as u32 <= 102 {
        Some((c as u32 - 97 + 10) as u32)
    } else if 65 <= c as u32 && c as u32 <= 70 {
        Some((c as u32 - 65 + 10) as u32)
    } else {
        None
    }
}

/// The first index at or after `i` holding no whitespace.
pub open spec fn spec_skip_ws(s: Seq<char>, i: int) -> int
    decreases s.len() - i,
{
    if 0 <= i < s.len() && spec_is_ws(s[i]) {
        spec_skip_ws(s, i + 1)
    } else {
        i
    }
}

/// The remaining characters of a number literal from `k`, and where it ends.
pub open spec fn spec_num_tail(s: Seq<char>, k: int) -> (Seq<char>, int)
    decreases s.len() - k,
{
    if 0 <= k < s.len() && spec_is_num_char(s[k]) {
        let t = spec_num_tail(s, k + 1);
        (seq![s[k]] + t.0, t.1)
    } else {
        (Seq::empty(), k)
    }
}

/// The body of a string literal from `j` (past the opening quote), with the
/// characters decoded so far. JSON escapes are decoded; surrogate escape
/// pairs combine into one character, lone or mismatched surrogates are
/// malformed, as are raw control characters.
pub open spec fn spec_str_body(s: Seq<char>, j: int, acc: Seq<char>) -> Option<(Seq<char>, int)>
    decreases s.len() - j,
{
    if j < 0 || j >= s.len() {
        None
    } else {
        let c = s[j];
        if c == '"' {
            Some((acc, j + 1))
        } else if c == '\\' {
            if j + 1 >= s.len() {
                None
            } else {
                let e = s[j + 1];
                if e == '"' || e == '\\' || e == '/' {
                    spec_str_body(s, j + 2, acc.push(e))
                } else if e == 'n' {
                    spec_str_body(s, j + 2, acc.push('\n'))
                } else if e == 't' {
                    spec_str_body(s, j + 2, acc.push('\t'))
                } else if e == 'r' {
                    spec_str_body(s, j + 2, acc.push('\r'))
                } else if e == 'b' {
                    spec_str_body(s, j + 2, acc.push('\u{0008}'))
                } else if e == 'f' {
                    spec_str_body(s, j + 2, acc.push('\u{000C}'))
                } else if e == 'u' {
                    if s.len() - j <= 5 {
                        None
                    } else {
                        match (
                            spec_hex_val(s[j + 2]),
                            spec_hex_val(s[j + 3]),
                            spec_hex_val(s[j + 4]),
                            spec_hex_val(s[j + 5]),
                        ) {
                            (Some(a), Some(b), Some(cc), Some(d)) => {
                                let code = a * 4096 + b * 256 + cc * 16 + d;
                                if code < 0xD800 || code > 0xDFFF {
                                    spec_str_body(s, j + 6, acc.push(char_of(code as int)))
                                } else if code <= 0xDBFF {
                                    if s.len() - j <= 11 {
                                        None
                                    } else if s[j + 6] == '\\' && s[j + 7] == 'u' {
                                        match (
                                            spec_hex_val(s[j + 8]),
                                            spec_hex_val(s[j + 9]),
                                            spec_hex_val(s[j + 10]),
                                            spec_hex_val(s[j + 11]),
                                        ) {
                                            (Some(la), Some(lb), Some(lc), Some(ld)) => {
                                                let lo = la * 4096 + lb * 256 + lc * 16 + ld;
                                                if 0xDC00 <= lo && lo <= 0xDFFF {
                                                    let combined = 0x10000 + (code - 0xD800) * 0x400
                                                        + (lo - 0xDC00);
                                                    spec_str_body(
                                                        s,
                                                        j + 12,
                                                        acc.push(char_of(combined as int)),
                                                    )
                                                } else {
                                                    None
                                                }
                                            },
                                            _ => None,
                                        }
                                    } else {
                                        None
                                    }
                                } else {
                                    None
                                }
                            },
                            _ => None,
                        }
                    }
                } else {
                    None
                }
            }
        } else if (c as u32) < 32 {
            None
        } else {
            spec_str_body(s, j + 1, acc.push(c))
        }
    }
}

/// The string literal starting at `i`, which must hold the opening quote.
pub open spec fn spec_parse_string(s: Seq<char>, i: int) -> Option<(Seq<char>, int)> {
    if 0 <= i < s.len() && s[i] == '"' {
        spec_str_body(s, i + 1, Seq::empty())
    } else {
        None
    }
}

/// One JSON value starting at `i`, whitespace allowed, and the index past it.
pub open spec fn spec_parse_value(s: Seq<char>, i: int) -> Option<(SpecJson, int)>
    decreases s.len() - i, 1int,
{
    let j = spec_skip_ws(s, i);
    if j < i || j >= s.len() {
        None
    } else {
        let c = s[j];
        if c == 'n' {
            if s.len() - j > 3 && s[j + 1] == 'u' && s[j + 2] == 'l' && s[j + 3] == 'l' {
                Some((SpecJson::Null, j + 4))
            } else {
                None
            }
        } else if c == 't' {
            if s.len() - j > 3 && s[j + 1] == 'r' && s[j + 2] == 'u' && s[j + 3] == 'e' {
                Some((SpecJson::Bool(true), j + 4))
            } else {
                None
            }
        } else if c == 'f' {
            if s.len() - j > 4 && s[j + 1] == 'a' && s[j + 2] == 'l' && s[j + 3] == 's' && s[j + 4]
                == 'e' {
                Some((SpecJson::Bool(false), j + 5))
            } else {
                None
            }
        } else if c == '"' {
            match spec_parse_string(s, j) {
                Some(p) => Some((SpecJson::Str(p.0), p.1)),
                None => None,
            }
        } else if c == '[' {
            spec_parse_array(s, j)
        } else if c == '{' {
            spec_parse_object(s, j)
        } else if spec_is_num_char(c) && !(c == '+') && !(c == '.') && !(c == 'e') && !(c == 'E') {
            let t = spec_num_tail(s, j + 1);
            Some((SpecJson::Num(seq![c] + t.0), t.1))
        } else {
            None
        }
    }
}

/// The array starting at `i` (which holds `[`).
pub open spec fn spec_parse_array(s: Seq<char>, i: int) -> Option<(SpecJson, int)>
    decreases s.len() - i, 0int,
{
    let j = spec_skip_ws(s, i + 1);
    if j <= i || j > s.len() {
        None
    } else if j < s.len() && s[j] == ']' {
        Some((SpecJson::Arr(Seq::empty()), j + 1))
    } else {
        spec_arr_items(s, j, Seq::empty())
    }
}

/// The remaining items of an array from `j`, with those decoded so far.
pub open spec fn spec_arr_items(s: Seq<char>, j: int, acc: Seq<SpecJson>) -> Option<
    (SpecJson, int),
>
    decreases s.len() - j, 2int,
{
    match spec_parse_value(s, j) {
        None => None,
        Some(p) => {
            let (v, j2) = p;
            if j2 <= j || j2 > s.len() {
                None
            } else {
                let j3 = spec_skip_ws(s, j2);
                if j3 < j2 || j3 >= s.len() {
                    None
                } else if s[j3] == ',' {
                    spec_arr_items(s, j3 + 1, acc.push(v))
                } else if s[j3] == ']' {
                    Some((SpecJson::Arr(acc.push(v)), j3 + 1))
                } else {
                    None
                }
            }
        },
    }
}

/// The object starting at `i` (which holds `{`).
pub open spec fn spec_parse_object(s: Seq<char>, i: int) -> Option<(SpecJson, int)>
    decreases s.len() - i, 0int,
{
    let j = spec_skip_ws(s, i + 1);
    if j <= i || j > s.len() {
        None
    } else if j < s.len() && s[j] == '}' {
        Some((SpecJson::Obj(Seq::empty()), j + 1))
    } else {
        spec_obj_items(s, j, Seq::empty())
    }
}

/// The remaining members of an object from `j`, with those decoded so far.
pub open spec fn spec_obj_items(
    s: Seq<char>,
    j: int,
    acc: Seq<(Seq<char>, SpecJson)>,
) -> Option<(SpecJson, int)>
    decreases s.len() - j, 2int,
{
    if j >= s.len() {
        None
    } else {
        match spec_parse_string(s, j) {
            None => None,
            Some(kp) => {
                let (k, j2) = kp;
                if j2 <= j || j2 > s.len() {
                    None
                } else {
                    let j3 = spec_skip_ws(s, j2);
                    if j3 < j2 || j3 >= s.len() || !(s[j3] == ':') {
                        None
                    } else {
                        match spec_parse_value(s, j3 + 1) {
                            None => None,
                            Some(vp) => {
                                let (v, j4) = vp;
                                if j4 <= j3 || j4 > s.len() {
                                    None
                                } else {
                                    let acc2 = acc.push((k, v));
                                    let j5 = spec_skip_ws(s, j4);
                                    if j5 < j4 || j5 >= s.len() {
                                        None
                                    } else if s[j5] == ',' {
                                        let j6 = spec_skip_ws(s, j5 + 1);
                                        if j6 <= j5 || j6 > s.len() {
                                            None
                                        } else {
                                            spec_obj_items(s, j6, acc2)
                                        }
                                    } else if s[j5] == '}' {
                                        Some((SpecJson::Obj(acc2), j5 + 1))
                                    } else {
                                        None
                                    }
                                }
                            },
                        }
                    }
                }
            },
        }
    }
}

/// A whole JSON document: one value with nothing but whitespace after it.
pub open spec fn spec_parse_json(s: Seq<char>) -> Option<SpecJson> {
    match spec_parse_value(s, 0) {
        Some(p) => if spec_skip_ws(s, p.1) == s.len() {
            Some(p.0)
        } else {
            None
        },
        None => None,
    }
}

/// The parser's result equals the grammar's.
pub open spec fn parse_matches(r: Option<(Json, usize)>, q: Option<(SpecJson, int)>) -> bool {
    match (r, q) {
        (Some(p), Some(qq)) => json_view(p.0) == qq.0 && p.1 == qq.1,
        (None, None) => true,
        _ => false,
    }
}

/// The string parser's result equals the grammar's.
pub open spec fn str_matches(r: Option<(String, usize)>, q: Option<(Seq<char>, int)>) -> bool {
    match (r, q) {
        (Some(p), Some(qq)) => p.0@ == qq.0 && p.1 == qq.1,
        (None, None) => true,
        _ => false,
    }
}

// ---------------------------------------------------------------------------
// The parser.
// ---------------------------------------------------------------------------

/// The first index at or after `i` holding no whitespace.
fn skip_ws(s: &Vec<char>, i: usize) -> (r: usize)
    requires
        i <= s@.len(),
    ensures
        i <= r <= s@.len(),
        r as int == spec_skip_ws(s@, i as int),
    decreases s@.len() - i,
{
    let mut j: usize = i;
    while j < s.len() && (s[j] == ' ' || s[j] == '\t' || s[j] == '\n' || s[j] == '\r')
        invariant
            i <= j <= s@.len(),
            spec_skip_ws(s@, i as int) == spec_skip_ws(s@, j as int),
        decreases s@.len() - j,
    {
        j = j + 1;
    }
    j
}

/// The value of a hexadecimal digit.
fn hex_val(c: char) -> (r: Option<u32>)
    ensures
        r == spec_hex_val(c),
        match r {
            Some(v) => v < 16,
            None => true,
        },
{
    let u: u32 = c as u32;
    if u >= 48 && u <= 57 {
        Some(u - 48)
    } else if u >= 97 && u <= 102 {
        Some(u - 97 + 10)
    } else if u >= 65 && u <= 70 {
        Some(u - 65 + 10)
    } else {
        None
    }
}

/// Parses the quoted string starting at `i` (which must hold the opening
/// quote), decoding the JSON escapes; surrogate pairs combine, lone ones are
/// rejected.
fn parse_string(s: &Vec<char>, i: usize) -> (r: Option<(String, usize)>)
    requires
        i < s@.len(),
    ensures
        str_matches(r, spec_parse_string(s@, i as int)),
        match r {
            Some(p) => i < p.1 <= s@.len(),
            None => true,
        },
    decreases s@.len() - i,
{
    let n: usize = s.len();
    if !(s[i] == '"') {
        return None;
    }
    let mut out: String = String::new();
    let mut j: usize = i + 1;
    loop
        invariant
            i < j <= s@.len(),
            n == s@.len(),
            spec_parse_string(s@, i as int) == spec_str_body(s@, j as int, out@),
        decreases s@.len() - j,
    {
        if j >= n {
            return None;
        }
        let c: char = s[j];
        if c == '"' {
            return Some((out, j + 1));
        }
        if c == '\\' {
            if j + 1 >= n {
                return None;
            }
            let e: char = s[j + 1];
            if e == '"' || e == '\\' || e == '/' {
                push_char(&mut out, e);
                j = j + 2;
            } else if e == 'n' {
                push_char(&mut out, '\n');
                j = j + 2;
            } else if e == 't' {
                push_char(&mut out, '\t');
                j = j + 2;
            } else if e == 'r' {
                push_char(&mut out, '\r');
                j = j + 2;
            } else if e == 'b' {
                push_char(&mut out, '\u{0008}');
                j = j + 2;
            } else if e == 'f' {
                push_char(&mut out, '\u{000C}');
                j = j + 2;
            } else if e == 'u' {
                if n - j <= 5 {
                    return None;
                }
                match (hex_val(s[j + 2]), hex_val(s[j + 3]), hex_val(s[j + 4]), hex_val(s[j + 5])) {
                    (Some(a), Some(b), Some(cc), Some(d)) => {
                        let code: u32 = a * 4096 + b * 256 + cc * 16 + d;
                        if code < 0xD800 || code > 0xDFFF {
                            match char_from_u32(code) {
                                Some(ch) => {
                                    proof {
                                        lemma_char_of(ch);
                                    }
                                    push_char(&mut out, ch);
                                    j = j + 6;
                                },
                                None => {
                                    proof {
                                        assert(false);
                                    }
                                    return None;
                                },
                            }
                        } else if code <= 0xDBFF {
                            if n - j <= 11 {
                                return None;
                            }
                            if !(s[j + 6] == '\\' && s[j + 7] == 'u') {
                                return None;
                            }
                            match (
                                hex_val(s[j + 8]),
                                hex_val(s[j + 9]),
                                hex_val(s[j + 10]),
                                hex_val(s[j + 11]),
                            ) {
                                (Some(la), Some(lb), Some(lc), Some(ld)) => {
                                    let lo: u32 = la * 4096 + lb * 256 + lc * 16 + ld;
                                    if lo >= 0xDC00 && lo <= 0xDFFF {
                                        let combined: u32 = 0x10000 + (code - 0xD800) * 0x400 + (lo
                                            - 0xDC00);
                                        match char_from_u32(combined) {
                                            Some(ch) => {
                                                proof {
                                                    lemma_char_of(ch);
                                                }
                                                push_char(&mut out, ch);
                                                j = j + 12;
                                            },
                                            None => {
                                                proof {
                                                    assert(false);
                                                }
                                                return None;
                                            },
                                        }
                                    } else {
                                        return None;
                                    }
                                },
                                _ => {
                                    return None;
                                },
                            }
                        } else {
                            return None;
                        }
                    },
                    _ => {
                        return None;
                    },
                }
            } else {
                return None;
            }
        } else if (c as u32) < 32 {
            // raw control characters are not valid inside a JSON string
            return None;
        } else {
            push_char(&mut out, c);
            j = j + 1;
        }
    }
}

/// Whether a character can continue a JSON number literal.
fn is_num_char(c: char) -> (r: bool)
    ensures
        r == spec_is_num_char(c),
{
    let u: u32 = c as u32;
    (u >= 48 && u <= 57) || c == '-' || c == '+' || c == '.' || c == 'e' || c == 'E'
}

/// Parses one JSON value starting at `i`, whitespace allowed, and returns it
/// with the index just past it.
pub fn parse_value(s: &Vec<char>, i: usize) -> (r: Option<(Json, usize)>)
    requires
        i <= s@.len(),
    ensures
        parse_matches(r, spec_parse_value(s@, i as int)),
        match r {
            Some(p) => i < p.1 <= s@.len(),
            None => true,
        },
    decreases s@.len() - i, 1int,
{
    let j: usize = skip_ws(s, i);
    if j >= s.len() {
        return None;
    }
    let c: char = s[j];
    if c == 'n' {
        if s.len() - j > 3 && s[j + 1] == 'u' && s[j + 2] == 'l' && s[j + 3] == 'l' {
            Some((Json::Null, j + 4))
        } else {
            None
        }
    } else if c == 't' {
        if s.len() - j > 3 && s[j + 1] == 'r' && s[j + 2] == 'u' && s[j + 3] == 'e' {
            Some((Json::Bool(true), j + 4))
        } else {
            None
        }
    } else if c == 'f' {
        if s.len() - j > 4 && s[j + 1] == 'a' && s[j + 2] == 'l' && s[j + 3] == 's' && s[j + 4]
            == 'e' {
            Some((Json::Bool(false), j + 5))
        } else {
            None
        }
    } else if c == '"' {
        match parse_string(s, j) {
            Some(p) => Some((Json::Str(p.0), p.1)),
            None => None,
        }
    } else if c == '[' {
        parse_array(s, j)
    } else if c == '{' {
        parse_object(s, j)
    } else if is_num_char(c) && !(c == '+') && !(c == '.') && !(c == 'e') && !(c == 'E') {
        let mut lit: String = String::new();
        push_char(&mut lit, c);
        let mut k: usize = j + 1;
        proof {
            assert(lit@ =~= seq![c]);
            assert(lit@ + spec_num_tail(s@, k as int).0 =~= seq![c] + spec_num_tail(
                s@,
                j as int + 1,
            ).0);
        }
        while k < s.len() && is_num_char(s[k])
            invariant
                j < k <= s@.len(),
                lit@ + spec_num_tail(s@, k as int).0 =~= seq![c] + spec_num_tail(
                    s@,
                    j as int + 1,
                ).0,
                spec_num_tail(s@, k as int).1 == spec_num_tail(s@, j as int + 1).1,
            decreases s@.len() - k,
        {
            push_char(&mut lit, s[k]);
            proof {
                assert(lit@ + spec_num_tail(s@, k as int + 1).0 =~= seq![c] + spec_num_tail(
                    s@,
                    j as int + 1,
                ).0);
            }
            k = k + 1;
        }
        proof {
            assert(spec_num_tail(s@, k as int).0 =~= Seq::<char>::empty());
            assert(lit@ =~= seq![c] + spec_num_tail(s@, j as int + 1).0);
        }
        Some((Json::Num(lit), k))
    } else {
        None
    }
}

/// Parses the array starting at `i` (which must hold `[`).
fn parse_array(s: &Vec<char>, i: usize) -> (r: Option<(Json, usize)>)
    requires
        i < s@.len(),
        s@[i as int] == '[',
    ensures
        parse_matches(r, spec_parse_array(s@, i as int)),
        match r {
            Some(p) => i < p.1 <= s@.len(),
            None => true,
        },
    decreases s@.len() - i, 0int,
{
    let n: usize = s.len();
    let mut items: Vec<Json> = Vec::new();
    let mut j: usize = skip_ws(s, i + 1);
    if j < n && s[j] == ']' {
        proof {
            assert(jsons_view_all(items@) =~= Seq::<SpecJson>::empty());
        }
        return Some((Json::Arr(items), j + 1));
    }
    proof {
        assert(jsons_view_all(items@) =~= Seq::<SpecJson>::empty());
    }
    loop
        invariant
            i < j <= s@.len(),
            n == s@.len(),
            spec_parse_array(s@, i as int) == spec_arr_items(s@, j as int, jsons_view_all(items@)),
        decreases s@.len() - j,
    {
        match parse_value(s, j) {
            None => {
                return None;
            },
            Some(p) => {
                let (v, j2) = p;
                let ghost jv: SpecJson = json_view(v);
                proof {
                    lemma_jsons_view_push(items@, v);
                }
                items.push(v);
                let j3: usize = skip_ws(s, j2);
                if j3 >= n {
                    return None;
                }
                if s[j3] == ',' {
                    j = j3 + 1;
                } else if s[j3] == ']' {
                    return Some((Json::Arr(items), j3 + 1));
                } else {
                    return None;
                }
            },
        }
    }
}

/// Parses the object starting at `i` (which must hold `{`).
fn parse_object(s: &Vec<char>, i: usize) -> (r: Option<(Json, usize)>)
    requires
        i < s@.len(),
        s@[i as int] == '{',
    ensures
        parse_matches(r, spec_parse_object(s@, i as int)),
        match r {
            Some(p) => i < p.1 <= s@.len(),
            None => true,
        },
    decreases s@.len() - i, 0int,
{
    let n: usize = s.len();
    let mut fields: Vec<(String, Json)> = Vec::new();
    let mut j: usize = skip_ws(s, i + 1);
    if j < n && s[j] == '}' {
        proof {
            assert(fields_view_all(fields@) =~= Seq::<(Seq<char>, SpecJson)>::empty());
        }
        return Some((Json::Obj(fields), j + 1));
    }
    proof {
        assert(fields_view_all(fields@) =~= Seq::<(Seq<char>, SpecJson)>::empty());
    }
    loop
        invariant
            i < j <= s@.len(),
            n == s@.len(),
            spec_parse_object(s@, i as int) == spec_obj_items(
                s@,
                j as int,
                fields_view_all(fields@),
            ),
        decreases s@.len() - j,
    {
        if j >= n {
            return None;
        }
        match parse_string(s, j) {
            None => {
                return None;
            },
            Some(kp) => {
                let (key, j2) = kp;
                let j3: usize = skip_ws(s, j2);
                if j3 >= n || !(s[j3] == ':') {
                    return None;
                }
                match parse_value(s, j3 + 1) {
                    None => {
                        return None;
                    },
                    Some(vp) => {
                        let (v, j4) = vp;
                        proof {
                            lemma_fields_view_push(fields@, (key, v));
                        }
                        fields.push((key, v));
                        let j5: usize = skip_ws(s, j4);
                        if j5 >= n {
                            return None;
                        }
                        if s[j5] == ',' {
                            let j6: usize = skip_ws(s, j5 + 1);
                            j = j6;
                        } else if s[j5] == '}' {
                            return Some((Json::Obj(fields), j5 + 1));
                        } else {
                            return None;
                        }
                    },
                }
            },
        }
    }
}

/// Parses a whole JSON document: one value with nothing but whitespace after
/// it.
pub fn parse_json(s: &str) -> (r: Option<Json>)
    ensures
        match (r, spec_parse_json(s@)) {
            (Some(v), Some(q)) => json_view(v) == q,
            (None, None) => true,
            _ => false,
        },
{
    let cs: Vec<char> = str_chars(s);
    match parse_value(&cs, 0) {
        None => None,
        Some(p) => {
            let j: usize = skip_ws(&cs, p.1);
            if j == cs.len() {
                Some(p.0)
            } else {
                None
            }
        },
    }
}

} // verus!
