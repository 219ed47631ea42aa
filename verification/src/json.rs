//! Text that other programs read: JSON strings and quoted text.

use vstd::prelude::*;

verus! {

/// The JSON string literal that `serde_json::to_string` writes for a text, quotes included.
pub uninterp spec fn json_string(s: Seq<char>) -> Seq<char>;

/// `serde_json::to_string` on a `str`, which cannot fail. The literal is a function of the
/// text alone; it begins and ends with a quote.
#[verifier::external_body]
pub(crate) fn to_json_string(s: &str) -> (r: String)
    ensures
        r@ == json_string(s@),
        r@.len() >= 2,
        r@[0] == '"',
        r@.last() == '"',
{
    serde_json::to_string(s).unwrap()
}

/// The text that `{:?}` writes for a `str`.
pub uninterp spec fn debug_text(s: Seq<char>) -> Seq<char>;

/// `format!("{:?}", s)`: the quoted and escaped form of a text, a function of the text alone.
#[verifier::external_body]
pub(crate) fn to_debug_text(s: &str) -> (r: String)
    ensures
        r@ == debug_text(s@),
{
    format!("{:?}", s)
}

// ---- Reading JSON ----

/// A JSON value as `serde_json` reads it. Of a number it says what `as_u64` gives: its worth
/// where it is a whole number that fits, and else nothing.
pub enum JsonView {
    Null,
    Bool(bool),
    Number(Option<u64>),
    Text(Seq<char>),
    List(Seq<JsonView>),
    Object(Map<Seq<char>, JsonView>),
}

#[verifier::external_type_specification]
#[verifier::external_body]
pub struct ExJsonValue(serde_json::Value);

/// What a parsed JSON value holds.
pub uninterp spec fn json_view(v: serde_json::Value) -> JsonView;

/// What `serde_json::from_str` reads from a text: a value, or nothing where the text is no JSON.
pub uninterp spec fn json_parse(s: Seq<char>) -> Option<JsonView>;

/// `serde_json::from_str` into a `serde_json::Value`. Whether a text is JSON, and what it holds,
/// is a function of the text alone.
#[verifier::external_body]
pub(crate) fn parse_json(s: &str) -> (r: Option<serde_json::Value>)
    ensures
        match r {
            Some(v) => json_parse(s@) == Some(json_view(v)),
            None => json_parse(s@) is None,
        },
{
    serde_json::from_str::<serde_json::Value>(s).ok()
}

/// What `serde_json::from_slice` reads from bytes: a value, or nothing where they are no JSON.
pub uninterp spec fn json_parse_bytes(bytes: Seq<u8>) -> Option<JsonView>;

/// `serde_json::from_slice` into a `serde_json::Value`. Whether bytes are JSON, and what they
/// hold, is a function of the bytes alone.
#[verifier::external_body]
pub(crate) fn parse_json_bytes(bytes: &[u8]) -> (r: Option<serde_json::Value>)
    ensures
        match r {
            Some(v) => json_parse_bytes(bytes@) == Some(json_view(v)),
            None => json_parse_bytes(bytes@) is None,
        },
{
    serde_json::from_slice::<serde_json::Value>(bytes).ok()
}

/// The member of an object.
pub open spec fn member(v: JsonView, key: Seq<char>) -> Option<JsonView> {
    match v {
        JsonView::Object(m) => if m.contains_key(key) {
            Some(m[key])
        } else {
            None
        },
        _ => None,
    }
}

/// `serde_json::Value::get` with a text: the member of that name, where the value is an object
/// that has one.
#[verifier::external_body]
pub(crate) fn json_get<'a>(v: &'a serde_json::Value, key: &str) -> (r: Option<&'a serde_json::Value>)
    ensures
        match r {
            Some(x) => member(json_view(*v), key@) == Some(json_view(*x)),
            None => member(json_view(*v), key@) is None,
        },
{
    v.get(key)
}

/// The text of a JSON string.
pub open spec fn string_of(v: JsonView) -> Option<Seq<char>> {
    match v {
        JsonView::Text(s) => Some(s),
        _ => None,
    }
}

/// `serde_json::Value::as_str`: the text, where the value is a string.
#[verifier::external_body]
pub(crate) fn json_str(v: &serde_json::Value) -> (r: Option<&str>)
    ensures
        match r {
            Some(s) => string_of(json_view(*v)) == Some(s@),
            None => string_of(json_view(*v)) is None,
        },
{
    v.as_str()
}

/// What a JSON number is worth, where that is a whole number that fits.
pub open spec fn whole_number(v: JsonView) -> Option<u64> {
    match v {
        JsonView::Number(n) => n,
        _ => None,
    }
}

/// `serde_json::Value::as_u64`: the number, where the value is a whole number that fits.
#[verifier::external_body]
pub(crate) fn json_u64(v: &serde_json::Value) -> (r: Option<u64>)
    ensures
        r == whole_number(json_view(*v)),
{
    v.as_u64()
}

/// `serde_json::Value::as_array`: the elements in their order, where the value is an array.
#[verifier::external_body]
pub(crate) fn json_array(v: &serde_json::Value) -> (r: Option<&Vec<serde_json::Value>>)
    ensures
        match r {
            Some(items) => json_view(*v) is List && items@.len() == (json_view(*v)->List_0).len() && (forall|
                i: int,
            |
                0 <= i < items@.len() ==> json_view(#[trigger] items@[i]) == (json_view(*v)->List_0)[i]),
            None => !(json_view(*v) is List),
        },
{
    v.as_array()
}

/// The text of the member of an object, or nothing where there is none.
pub open spec fn text_member(v: Option<JsonView>, key: Seq<char>) -> Option<Seq<char>> {
    match v {
        Some(v) => match member(v, key) {
            Some(m) => string_of(m),
            None => None,
        },
        None => None,
    }
}

/// The text of the member of an object.
pub(crate) fn json_text_member<'a>(v: Option<&'a serde_json::Value>, key: &str) -> (r: Option<&'a str>)
    ensures
        match r {
            Some(s) => text_member(
                match v {
                    Some(x) => Some(json_view(*x)),
                    None => None,
                },
                key@,
            ) == Some(s@),
            None => text_member(
                match v {
                    Some(x) => Some(json_view(*x)),
                    None => None,
                },
                key@,
            ) is None,
        },
{
    match v {
        Some(v) => match json_get(v, key) {
            Some(m) => json_str(m),
            None => None,
        },
        None => None,
    }
}

} // verus!
