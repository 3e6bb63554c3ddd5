//! JSON documents as a tree of plain values, and typed access to object fields.

use vstd::prelude::*;
use crate::number::{parse_scaled, parse_unsigned, scaled_of, unsigned_of};
use crate::text::same_text;

verus! {

/// serde_json's document tree; only `parse_json` handles one.
#[verifier::external_type_specification]
#[verifier::external_body]
pub struct ExJsonDocument(serde_json::Value);

/// A JSON value. Numbers keep their decimal text. Object members come in
/// the order serde_json hands them out: sorted by name, a name given twice
/// keeping its last value.
pub enum JsonValue {
    Null,
    Bool(bool),
    Number(String),
    Text(String),
    Array(Vec<JsonValue>),
    /// Member names, and the member values at the same positions.
    Object(Vec<String>, Vec<JsonValue>),
}

/// The tree of the JSON text `text`, or `None` when `text` is not JSON.
pub uninterp spec fn parsed_json(text: Seq<char>) -> Option<JsonValue>;

/// Relies on `serde_json::from_str::<serde_json::Value>`, which reads a JSON
/// text into a tree that depends on the text alone, or fails.
#[verifier::external_body]
pub(crate) fn parse_json(text: &str) -> (r: Option<JsonValue>)
    ensures
        r == parsed_json(text@),
{
    serde_json::from_str::<serde_json::Value>(text).ok().map(tree_of)
}

/// Moves a `serde_json::Value` into a `JsonValue`, variant by variant, for
/// `parse_json`. Relies on `serde_json::Number`'s `Display`, which prints the
/// number's decimal text (integers as such, floats in shortest form).
#[verifier::external_body]
fn tree_of(v: serde_json::Value) -> JsonValue {
    match v {
        serde_json::Value::Null => JsonValue::Null,
        serde_json::Value::Bool(b) => JsonValue::Bool(b),
        serde_json::Value::Number(n) => JsonValue::Number(n.to_string()),
        serde_json::Value::String(s) => JsonValue::Text(s),
        serde_json::Value::Array(a) => JsonValue::Array(a.into_iter().map(tree_of).collect()),
        serde_json::Value::Object(m) => {
            let (keys, values) = m.into_iter().map(|(k, x)| (k, tree_of(x))).unzip();
            JsonValue::Object(keys, values)
        },
    }
}

/// The members of an object: names and values at the same positions.
pub struct Members {
    pub keys: Seq<String>,
    pub values: Seq<JsonValue>,
}

/// The value of the first member named `key`.
pub open spec fn field(es: Members, key: Seq<char>) -> Option<JsonValue>
    decreases es.keys.len(),
{
    if es.keys.len() == 0 || es.values.len() == 0 {
        None
    } else if es.keys[0]@ == key {
        Some(es.values[0])
    } else {
        field(Members { keys: es.keys.skip(1), values: es.values.skip(1) }, key)
    }
}

/// The member named `key`, or else the one named `legacy`.
pub open spec fn aliased(es: Members, key: Seq<char>, legacy: Seq<char>) -> Option<
    JsonValue,
> {
    match field(es, key) {
        Some(v) => Some(v),
        None => field(es, legacy),
    }
}

/// Looks up the first member named `key`.
pub fn get_field<'a>(keys: &'a Vec<String>, values: &'a Vec<JsonValue>, key: &str) -> (r: Option<
    &'a JsonValue,
>)
    ensures
        match field(Members { keys: keys@, values: values@ }, key@) {
            Some(v) => r matches Some(x) && *x == v,
            None => r is None,
        },
{
    let ghost all = Members { keys: keys@, values: values@ };
    let mut i: usize = 0;
    assert(keys@.skip(0) =~= keys@);
    assert(values@.skip(0) =~= values@);
    while i < keys.len() && i < values.len()
        invariant
            0 <= i <= keys@.len(),
            i <= values@.len(),
            all == (Members { keys: keys@, values: values@ }),
            field(all, key@) == field(
                Members { keys: keys@.skip(i as int), values: values@.skip(i as int) },
                key@,
            ),
        decreases keys@.len() - i,
    {
        assert(keys@.skip(i as int).skip(1) =~= keys@.skip(i + 1));
        assert(values@.skip(i as int).skip(1) =~= values@.skip(i + 1));
        if same_text(keys[i].as_str(), key) {
            return Some(&values[i]);
        }
        i += 1;
    }
    None
}

/// Looks up the member named `key`, or else the one named `legacy`.
pub fn get_aliased<'a>(
    keys: &'a Vec<String>,
    values: &'a Vec<JsonValue>,
    key: &str,
    legacy: &str,
) -> (r: Option<&'a JsonValue>)
    ensures
        match aliased(Members { keys: keys@, values: values@ }, key@, legacy@) {
            Some(v) => r matches Some(x) && *x == v,
            None => r is None,
        },
{
    match get_field(keys, values, key) {
        Some(v) => Some(v),
        None => get_field(keys, values, legacy),
    }
}

/// An unsigned integer member; 0 when absent.
pub open spec fn u64_member(f: Option<JsonValue>) -> Option<u64> {
    match f {
        None => Some(0),
        Some(JsonValue::Number(t)) => match unsigned_of(t@) {
            Some(v) => Some(v as u64),
            None => None,
        },
        _ => None,
    }
}

/// Reads an unsigned integer member.
pub fn read_u64(f: Option<&JsonValue>) -> (r: Option<u64>)
    ensures
        r == u64_member(opt_deref(f)),
{
    match f {
        None => Some(0),
        Some(JsonValue::Number(t)) => parse_unsigned(t.as_str()),
        Some(_) => None,
    }
}

/// An optional unsigned integer member; `null` counts as absent.
pub open spec fn opt_u64_member(f: Option<JsonValue>) -> Option<Option<u64>> {
    match f {
        None => Some(None),
        Some(JsonValue::Null) => Some(None),
        Some(JsonValue::Number(t)) => match unsigned_of(t@) {
            Some(v) => Some(Some(v as u64)),
            None => None,
        },
        _ => None,
    }
}

/// Reads an optional unsigned integer member.
pub fn read_opt_u64(f: Option<&JsonValue>) -> (r: Option<Option<u64>>)
    ensures
        r == opt_u64_member(opt_deref(f)),
{
    match f {
        None => Some(None),
        Some(JsonValue::Null) => Some(None),
        Some(JsonValue::Number(t)) => match parse_unsigned(t.as_str()) {
            Some(v) => Some(Some(v)),
            None => None,
        },
        Some(_) => None,
    }
}

/// A boolean member; false when absent.
pub open spec fn bool_member(f: Option<JsonValue>) -> Option<bool> {
    match f {
        None => Some(false),
        Some(JsonValue::Bool(b)) => Some(b),
        _ => None,
    }
}

/// Reads a boolean member.
pub fn read_bool(f: Option<&JsonValue>) -> (r: Option<bool>)
    ensures
        r == bool_member(opt_deref(f)),
{
    match f {
        None => Some(false),
        Some(JsonValue::Bool(b)) => Some(*b),
        Some(_) => None,
    }
}

/// A number member in units of `10^-shift`; 0 when absent.
pub open spec fn scaled_member(f: Option<JsonValue>, shift: int) -> Option<u64> {
    match f {
        None => Some(0),
        Some(JsonValue::Number(t)) => match scaled_of(t@, shift) {
            Some(v) => Some(v as u64),
            None => None,
        },
        _ => None,
    }
}

/// Reads a number member in units of `10^-shift`.
pub fn read_scaled(f: Option<&JsonValue>, shift: i64) -> (r: Option<u64>)
    requires
        0 <= shift <= 9,
    ensures
        r == scaled_member(opt_deref(f), shift as int),
{
    match f {
        None => Some(0),
        Some(JsonValue::Number(t)) => parse_scaled(t.as_str(), shift),
        Some(_) => None,
    }
}

/// An optional number member in units of `10^-shift`; `null` counts as absent.
pub open spec fn opt_scaled_member(f: Option<JsonValue>, shift: int) -> Option<Option<u64>> {
    match f {
        None => Some(None),
        Some(JsonValue::Null) => Some(None),
        Some(JsonValue::Number(t)) => match scaled_of(t@, shift) {
            Some(v) => Some(Some(v as u64)),
            None => None,
        },
        _ => None,
    }
}

/// Reads an optional number member in units of `10^-shift`.
pub fn read_opt_scaled(f: Option<&JsonValue>, shift: i64) -> (r: Option<Option<u64>>)
    requires
        0 <= shift <= 9,
    ensures
        r == opt_scaled_member(opt_deref(f), shift as int),
{
    match f {
        None => Some(None),
        Some(JsonValue::Null) => Some(None),
        Some(JsonValue::Number(t)) => match parse_scaled(t.as_str(), shift) {
            Some(v) => Some(Some(v)),
            None => None,
        },
        Some(_) => None,
    }
}

/// What a reference option refers to.
pub open spec fn opt_deref(f: Option<&JsonValue>) -> Option<JsonValue> {
    match f {
        Some(x) => Some(*x),
        None => None,
    }
}

/// Whether a string member is well typed (absent or a string).
pub open spec fn text_ok(f: Option<JsonValue>) -> bool {
    f is None || f matches Some(JsonValue::Text(_))
}

/// A string member's value: the string, or empty when absent.
pub open spec fn text_is(f: Option<JsonValue>, s: String) -> bool {
    match f {
        None => s@.len() == 0,
        Some(JsonValue::Text(t)) => s == t,
        _ => false,
    }
}

/// Reads a string member; empty when absent.
pub fn read_text(f: Option<&JsonValue>) -> (r: Option<String>)
    ensures
        text_ok(opt_deref(f)) <==> r is Some,
        r matches Some(s) ==> text_is(opt_deref(f), s),
{
    match f {
        None => Some(String::new()),
        Some(JsonValue::Text(t)) => Some(t.clone()),
        Some(_) => None,
    }
}

/// Whether an optional string member is well typed (absent, `null` or a string).
pub open spec fn opt_text_ok(f: Option<JsonValue>) -> bool {
    f is None || f matches Some(JsonValue::Null) || f matches Some(JsonValue::Text(_))
}

/// An optional string member's value.
pub open spec fn opt_text_is(f: Option<JsonValue>, s: Option<String>) -> bool {
    match f {
        Some(JsonValue::Text(t)) => s == Some(t),
        _ => s is None,
    }
}

/// Reads an optional string member.
pub fn read_opt_text(f: Option<&JsonValue>) -> (r: Option<Option<String>>)
    ensures
        opt_text_ok(opt_deref(f)) <==> r is Some,
        r matches Some(s) ==> opt_text_is(opt_deref(f), s),
{
    match f {
        None => Some(None),
        Some(JsonValue::Null) => Some(None),
        Some(JsonValue::Text(t)) => Some(Some(t.clone())),
        Some(_) => None,
    }
}

/// The items of an array member; empty when absent, `None` when not an array.
pub open spec fn array_items(f: Option<JsonValue>) -> Option<Seq<JsonValue>> {
    match f {
        None => Some(Seq::empty()),
        Some(JsonValue::Array(items)) => Some(items@),
        _ => None,
    }
}

/// The members of an object; `None` when not an object.
pub open spec fn members(v: JsonValue) -> Option<Members> {
    match v {
        JsonValue::Object(keys, values) => Some(Members { keys: keys@, values: values@ }),
        _ => None,
    }
}

} // verus!
