//! A plain model of JSON documents, what the lockfile reader works on, and the
//! JSONC parser that produces it.

use vstd::prelude::*;

verus! {

/// A JSON value
#[derive(Debug)]
pub enum Json {
    Null,
    Bool(bool),
    /// A number, as the text it was written as
    Number(String),
    Str(String),
    Array(Vec<Json>),
    /// An object's members, in no particular order
    Object(Vec<(String, Json)>),
}

#[verifier::external_type_specification]
#[verifier::external_body]
pub struct ExJsonValue<'a>(jsonc_parser::JsonValue<'a>);

/// Relies on `jsonc_parser::parse_to_value`, which parses JSON with comments
/// and trailing commas, and gives no value for a document without one (such
/// as the empty text). On an error this holds the parser's message.
#[verifier::external_body]
pub(crate) fn parse_jsonc(text: &str) -> (r: Result<Option<Json>, String>)
    ensures
        text@.len() == 0 ==> (r is Ok && r->Ok_0 is None),
{
    match jsonc_parser::parse_to_value(text, &Default::default()) {
        Ok(value) => Ok(value.map(json_from_value)),
        Err(e) => Err(e.to_string()),
    }
}

/// Converts `jsonc_parser`'s value tree into a `Json`, node for node.
#[verifier::external_body]
fn json_from_value(value: jsonc_parser::JsonValue<'_>) -> Json {
    match value {
        jsonc_parser::JsonValue::String(s) => Json::Str(s.into_owned()),
        jsonc_parser::JsonValue::Number(n) => Json::Number(n.to_owned()),
        jsonc_parser::JsonValue::Boolean(b) => Json::Bool(b),
        jsonc_parser::JsonValue::Null => Json::Null,
        jsonc_parser::JsonValue::Array(a) => Json::Array(a.into_iter().map(json_from_value).collect()),
        jsonc_parser::JsonValue::Object(o) => Json::Object(
            o.into_iter().map(|(k, v)| (k, json_from_value(v))).collect(),
        ),
    }
}

/// The value of the first member of `members` named `key`.
pub open spec fn spec_lookup(members: Seq<(String, Json)>, key: Seq<char>) -> Option<Json>
    decreases members.len(),
{
    if members.len() == 0 {
        None
    } else if members[0].0@ == key {
        Some(members[0].1)
    } else {
        spec_lookup(members.drop_first(), key)
    }
}

/// The value of the first member of `members` named `key`.
pub fn lookup<'a>(members: &'a Vec<(String, Json)>, key: &str) -> (r: Option<&'a Json>)
    ensures
        match r {
            Some(v) => spec_lookup(members@, key@) == Some(*v),
            None => spec_lookup(members@, key@) is None,
        },
{
    let wanted = key.to_owned();
    let n = members.len();
    let mut i: usize = 0;
    assert(members@.subrange(0, n as int) =~= members@);
    while i < n
        invariant
            n == members@.len(),
            i <= n,
            wanted@ == key@,
            spec_lookup(members@, key@) == spec_lookup(members@.subrange(i as int, n as int), key@),
        decreases n - i,
    {
        assert(members@.subrange(i as int, n as int).drop_first() =~= members@.subrange(
            i + 1,
            n as int,
        ));
        if members[i].0 == wanted {
            assert(members@.subrange(i as int, n as int)[0] == members@[i as int]);
            return Some(&members[i].1);
        }
        i = i + 1;
    }
    None
}

/// Whether every member of `members` is a string.
pub open spec fn all_strings(members: Seq<(String, Json)>) -> bool {
    forall|i: int| 0 <= i < members.len() ==> (#[trigger] members[i]).1 is Str
}

/// The string a JSON value holds (meaningful when it is one).
pub open spec fn str_of(j: Json) -> Seq<char> {
    match j {
        Json::Str(s) => s@,
        _ => Seq::empty(),
    }
}

/// The members of an object of strings, as pairs of strings.
pub open spec fn string_pairs(members: Seq<(String, Json)>) -> Seq<(Seq<char>, Seq<char>)> {
    members.map_values(|m: (String, Json)| (m.0@, str_of(m.1)))
}

/// The members of an object of strings, as pairs of strings; `None` where a
/// member is not a string.
pub fn to_string_pairs(members: &Vec<(String, Json)>) -> (r: Option<Vec<(String, String)>>)
    ensures
        match r {
            Some(pairs) => all_strings(members@) && crate::package::binaries::pairs_view(pairs@)
                == string_pairs(members@),
            None => !all_strings(members@),
        },
{
    let mut pairs: Vec<(String, String)> = Vec::new();
    let n = members.len();
    let mut i: usize = 0;
    while i < n
        invariant
            n == members@.len(),
            i <= n,
            pairs@.len() == i,
            all_strings(members@.subrange(0, i as int)),
            crate::package::binaries::pairs_view(pairs@) =~= string_pairs(
                members@.subrange(0, i as int),
            ),
        decreases n - i,
    {
        let ghost before = pairs@;
        match &members[i].1 {
            Json::Str(s) => {
                pairs.push((members[i].0.clone(), s.clone()));
                assert(crate::package::binaries::pairs_view(pairs@) =~= crate::package::binaries::pairs_view(before).push((members@[i as int].0@, str_of(members@[i as int].1))));
                assert(string_pairs(members@.subrange(0, i + 1)) =~= string_pairs(members@.subrange(0, i as int)).push((members@[i as int].0@, str_of(members@[i as int].1))));
            },
            _ => {
                assert(!(members@[i as int].1 is Str));
                return None;
            },
        }
        i = i + 1;
        assert(members@.subrange(0, i as int).drop_last() =~= members@.subrange(0, i - 1));
        assert forall|k: int| 0 <= k < i implies (#[trigger] members@.subrange(
            0,
            i as int,
        )[k]).1 is Str by {
            if k < i - 1 {
                assert(members@.subrange(0, i as int)[k] == members@.subrange(0, i - 1)[k]);
            }
        }
    }
    assert(members@.subrange(0, n as int) =~= members@);
    Some(pairs)
}

/// Whether every value of `values` is a string.
pub open spec fn all_string_values(values: Seq<Json>) -> bool {
    forall|i: int| 0 <= i < values.len() ==> (#[trigger] values[i]) is Str
}

/// The strings of an array of strings.
pub open spec fn string_values(values: Seq<Json>) -> Seq<Seq<char>> {
    values.map_values(|v: Json| str_of(v))
}

/// The strings of an array of strings; `None` where a value is not a string.
pub fn to_strings(values: &Vec<Json>) -> (r: Option<Vec<String>>)
    ensures
        match r {
            Some(strings) => all_string_values(values@) && strings@.map_values(|s: String| s@)
                == string_values(values@),
            None => !all_string_values(values@),
        },
{
    let mut strings: Vec<String> = Vec::new();
    let n = values.len();
    let mut i: usize = 0;
    while i < n
        invariant
            n == values@.len(),
            i <= n,
            strings@.len() == i,
            forall|k: int| 0 <= k < i ==> (#[trigger] values@[k]) is Str,
            forall|k: int| 0 <= k < i ==> (#[trigger] strings@[k])@ == str_of(values@[k]),
        decreases n - i,
    {
        match &values[i] {
            Json::Str(s) => {
                strings.push(s.clone());
            },
            _ => {
                return None;
            },
        }
        i = i + 1;
    }
    assert(strings@.map_values(|s: String| s@) =~= string_values(values@));
    Some(strings)
}

/// Whether `c` is a decimal digit.
pub open spec fn is_digit(c: char) -> bool {
    '0' <= c && c <= '9'
}

/// The number the decimal digits `s` write.
pub open spec fn decimal_value(s: Seq<char>) -> int
    decreases s.len(),
{
    if s.len() == 0 {
        0
    } else {
        decimal_value(s.drop_last()) * 10 + (s.last() as int - '0' as int)
    }
}

/// The byte that the number text `s` writes, if it is plain decimal digits
/// whose value fits in a byte.
pub open spec fn spec_parse_u8(s: Seq<char>) -> Option<u8> {
    if s.len() > 0 && (forall|i: int| 0 <= i < s.len() ==> is_digit(#[trigger] s[i]))
        && decimal_value(s) <= 255 {
        Some(decimal_value(s) as u8)
    } else {
        None
    }
}

proof fn lemma_decimal_value_grows(s: Seq<char>, k: int)
    requires
        0 <= k <= s.len(),
        forall|i: int| 0 <= i < s.len() ==> is_digit(#[trigger] s[i]),
    ensures
        decimal_value(s.subrange(0, k)) <= decimal_value(s),
        0 <= decimal_value(s.subrange(0, k)),
    decreases s.len() - k,
{
    if k < s.len() {
        lemma_decimal_value_grows(s, k + 1);
        assert(s.subrange(0, k + 1).drop_last() =~= s.subrange(0, k));
        lemma_decimal_value_nonneg(s.subrange(0, k));
    } else {
        assert(s.subrange(0, k) =~= s);
        lemma_decimal_value_nonneg(s);
    }
}

proof fn lemma_decimal_value_nonneg(s: Seq<char>)
    requires
        forall|i: int| 0 <= i < s.len() ==> is_digit(#[trigger] s[i]),
    ensures
        0 <= decimal_value(s),
    decreases s.len(),
{
    if s.len() > 0 {
        lemma_decimal_value_nonneg(s.drop_last());
    }
}

/// The byte that the number text `s` writes, if it is plain decimal digits
/// whose value fits in a byte.
pub fn parse_u8(s: &str) -> (r: Option<u8>)
    ensures
        r == spec_parse_u8(s@),
{
    let n = s.unicode_len();
    if n == 0 {
        return None;
    }
    let mut value: u32 = 0;
    let mut i: usize = 0;
    while i < n
        invariant
            n == s@.len(),
            i <= n,
            value <= 255,
            forall|j: int| 0 <= j < i ==> is_digit(#[trigger] s@[j]),
            value == decimal_value(s@.subrange(0, i as int)),
        decreases n - i,
    {
        let c = s.get_char(i);
        assert(s@.subrange(0, i + 1).drop_last() =~= s@.subrange(0, i as int));
        if !('0' <= c && c <= '9') {
            return None;
        }
        let digit = (c as u32) - ('0' as u32);
        let next = value * 10 + digit;
        i = i + 1;
        if next > 255 {
            proof {
                lemma_decimal_value_grows_if_digits(s@, i as int);
            }
            return None;
        }
        value = next;
    }
    assert(s@.subrange(0, n as int) =~= s@);
    Some(value as u8)
}

/// A prefix of digits that is already over 255 leaves the whole text no byte.
proof fn lemma_decimal_value_grows_if_digits(s: Seq<char>, k: int)
    requires
        0 <= k <= s.len(),
        forall|j: int| 0 <= j < k ==> is_digit(#[trigger] s[j]),
        decimal_value(s.subrange(0, k)) > 255,
    ensures
        spec_parse_u8(s) is None,
{
    if forall|i: int| 0 <= i < s.len() ==> is_digit(#[trigger] s[i]) {
        lemma_decimal_value_grows(s, k);
    }
}

} // verus!
