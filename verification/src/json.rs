//! A plain model of JSON values, read and written through `serde_json`.
//!
//! The library reads provider answers, stored clip context, session columns
//! and window-manager trees as JSON.  `serde_json` does the parsing and the
//! printing; what the logic reads from a document is held in `JsonValue`.

use vstd::prelude::*;

use crate::text::chars_eq;
use crate::text::chars_of;

verus! {

/// A JSON document.  Numbers are kept in the text form that `serde_json`
/// prints for them; object members keep the order of the parsed map.
#[derive(Debug)]
pub enum JsonValue {
    Null,
    Bool(bool),
    Number(String),
    Text(String),
    Array(Vec<JsonValue>),
    Object(Vec<(String, JsonValue)>),
}

/// `serde_json::Value`, carried through the conversions below and never read by verified code.
#[verifier::external_type_specification]
#[verifier::external_body]
pub struct ExSerdeJsonValue(serde_json::Value);

/// What `serde_json::from_str::<serde_json::Value>` yields for a text, in
/// this model; `None` where it reports an error.
pub uninterp spec fn spec_json_parse(text: Seq<char>) -> Option<JsonValue>;

/// What `serde_json::to_string` prints for a value of this model, once it
/// has been turned into a `serde_json::Value`; `None` where it reports an error.
pub uninterp spec fn spec_json_print(value: JsonValue) -> Option<Seq<char>>;

/// Parses `text` with `serde_json::from_str` into a `serde_json::Value` and
/// turns that into a `JsonValue`, variant by variant.  The result is named,
/// not stated.
#[verifier::external_body]
pub(crate) fn json_parse(text: &str) -> (r: Option<JsonValue>)
    ensures
        r == spec_json_parse(text@),
{
    serde_json::from_str::<serde_json::Value>(text).ok().map(|v| from_serde(&v))
}

/// Turns a `serde_json::Value` into a `JsonValue`, one variant onto the
/// like-named one, numbers by their `Display` text; it is used by `json_parse`.
#[verifier::external_body]
fn from_serde(v: &serde_json::Value) -> JsonValue {
    match v {
        serde_json::Value::Null => JsonValue::Null,
        serde_json::Value::Bool(b) => JsonValue::Bool(*b),
        serde_json::Value::Number(n) => JsonValue::Number(n.to_string()),
        serde_json::Value::String(s) => JsonValue::Text(s.clone()),
        serde_json::Value::Array(a) => JsonValue::Array(a.iter().map(from_serde).collect()),
        serde_json::Value::Object(m) => JsonValue::Object(
            m.iter().map(|(k, v)| (k.clone(), from_serde(v))).collect(),
        ),
    }
}

/// Turns a `JsonValue` into a `serde_json::Value`, variant by variant (a
/// number's text through `serde_json::Number`'s `FromStr`), and prints it
/// with `serde_json::to_string`.  The result is named, not stated.
#[verifier::external_body]
pub(crate) fn json_print(value: &JsonValue) -> (r: Option<String>)
    ensures
        match r {
            Some(t) => spec_json_print(*value) == Some(t@),
            None => spec_json_print(*value) is None,
        },
{
    serde_json::to_string(&to_serde(value)).ok()
}

/// Turns a `JsonValue` into a `serde_json::Value`; it is used by `json_print`.
#[verifier::external_body]
fn to_serde(v: &JsonValue) -> serde_json::Value {
    match v {
        JsonValue::Null => serde_json::Value::Null,
        JsonValue::Bool(b) => serde_json::Value::Bool(*b),
        JsonValue::Number(n) => n.parse::<serde_json::Number>().map(serde_json::Value::Number).unwrap_or(serde_json::Value::Null),
        JsonValue::Text(s) => serde_json::Value::String(s.clone()),
        JsonValue::Array(a) => serde_json::Value::Array(a.iter().map(to_serde).collect()),
        JsonValue::Object(m) => serde_json::Value::Object(
            m.iter().map(|(k, v)| (k.clone(), to_serde(v))).collect(),
        ),
    }
}

/// Index of the first member of `members` named `key`.
pub open spec fn member_index(members: Seq<(String, JsonValue)>, key: Seq<char>, i: int) -> bool {
    0 <= i < members.len() && members[i].0@ == key && forall|j: int|
        0 <= j < i ==> members[j].0@ != key
}

/// `Value::get` with a string key: the member named `key` of an object.
pub open spec fn spec_get(v: JsonValue, key: Seq<char>) -> Option<JsonValue> {
    match v {
        JsonValue::Object(members) => if exists|i: int| member_index(members@, key, i) {
            Some(members@[choose|i: int| member_index(members@, key, i)].1)
        } else {
            None
        },
        _ => None,
    }
}

/// `Value::as_str`.
pub open spec fn spec_as_text(v: Option<JsonValue>) -> Option<Seq<char>> {
    match v {
        Some(JsonValue::Text(s)) => Some(s@),
        _ => None,
    }
}

/// `Value::as_bool`.
pub open spec fn spec_as_bool(v: Option<JsonValue>) -> Option<bool> {
    match v {
        Some(JsonValue::Bool(b)) => Some(b),
        _ => None,
    }
}

/// `Value::as_array`.
pub open spec fn spec_as_array(v: Option<JsonValue>) -> Option<Seq<JsonValue>> {
    match v {
        Some(JsonValue::Array(items)) => Some(items@),
        _ => None,
    }
}

/// The string items of an array, in order; other items are skipped.
pub open spec fn spec_text_items(items: Seq<JsonValue>) -> Seq<Seq<char>>
    decreases items.len(),
{
    if items.len() == 0 {
        seq![]
    } else {
        let rest = spec_text_items(items.drop_last());
        match items.last() {
            JsonValue::Text(s) => rest.push(s@),
            _ => rest,
        }
    }
}

/// The views of a vector of strings.
pub open spec fn views(v: Seq<String>) -> Seq<Seq<char>> {
    v.map_values(|s: String| s@)
}

impl JsonValue {
    /// The member named `key`, when this is an object that has one.
    pub fn get(&self, key: &str) -> (r: Option<&JsonValue>)
        ensures
            match r {
                Some(x) => spec_get(*self, key@) == Some(*x),
                None => spec_get(*self, key@) is None,
            },
    {
        match self {
            JsonValue::Object(members) => {
                let k = chars_of(key);
                let mut i: usize = 0;
                while i < members.len()
                    invariant
                        i <= members.len(),
                        k@ == key@,
                        *self == JsonValue::Object(*members),
                        forall|j: int| 0 <= j < i ==> members@[j].0@ != key@,
                    decreases members.len() - i,
                {
                    let name = chars_of(members[i].0.as_str());
                    if chars_eq(&name, &k) {
                        assert(members@[i as int].0@ == key@);
                        assert(member_index(members@, key@, i as int));
                        let ghost c = choose|c: int| member_index(members@, key@, c);
                        assert(member_index(members@, key@, c));
                        assert(c == i) by {
                            if c < i {
                                assert(members@[c].0@ != key@);
                            } else if c > i {
                                assert(members@[i as int].0@ != key@);
                            }
                        }
                        assert(spec_get(*self, key@) == Some(members@[i as int].1));
                        return Some(&members[i].1);
                    }
                    i += 1;
                }
                assert(!exists|c: int| member_index(members@, key@, c));
                None
            },
            _ => None,
        }
    }

    /// The text, when this is a JSON string.
    pub fn as_text(&self) -> (r: Option<&String>)
        ensures
            match r {
                Some(s) => spec_as_text(Some(*self)) == Some(s@),
                None => spec_as_text(Some(*self)) is None,
            },
    {
        match self {
            JsonValue::Text(s) => Some(s),
            _ => None,
        }
    }

    /// The boolean, when this is a JSON boolean.
    pub fn as_bool(&self) -> (r: Option<bool>)
        ensures
            r == spec_as_bool(Some(*self)),
    {
        match self {
            JsonValue::Bool(b) => Some(*b),
            _ => None,
        }
    }

    /// The items, when this is a JSON array.
    pub fn as_array(&self) -> (r: Option<&Vec<JsonValue>>)
        ensures
            match r {
                Some(a) => spec_as_array(Some(*self)) == Some(a@),
                None => spec_as_array(Some(*self)) is None,
            },
    {
        match self {
            JsonValue::Array(items) => Some(items),
            _ => None,
        }
    }
}

/// The string items of an array, in order.
pub fn text_items(items: &Vec<JsonValue>) -> (r: Vec<String>)
    ensures
        views(r@) == spec_text_items(items@),
{
    let mut out: Vec<String> = Vec::new();
    let mut i: usize = 0;
    while i < items.len()
        invariant
            i <= items.len(),
            views(out@) == spec_text_items(items@.take(i as int)),
        decreases items.len() - i,
    {
        assert(items@.take(i + 1).drop_last() =~= items@.take(i as int));
        match &items[i] {
            JsonValue::Text(s) => {
                out.push(s.clone());
            },
            _ => {},
        }
        i += 1;
        assert(views(out@) =~= spec_text_items(items@.take(i as int)));
    }
    assert(items@.take(i as int) =~= items@);
    out
}

/// `v` is a JSON array of strings with these views, in order.
pub open spec fn is_text_array(v: JsonValue, items: Seq<Seq<char>>) -> bool {
    match v {
        JsonValue::Array(values) => values@.len() == items.len() && forall|k: int|
            0 <= k < items.len() ==> (#[trigger] values@[k] matches JsonValue::Text(t) && t@
                == items[k]),
        _ => false,
    }
}

/// Member `i` of `m` is named `key` and holds the string `val`.
pub open spec fn text_member(m: Seq<(String, JsonValue)>, i: int, key: Seq<char>, val: Seq<char>) -> bool {
    0 <= i < m.len() && m[i].0@ == key && (m[i].1 matches JsonValue::Text(t) && t@ == val)
}

/// Member `i` of `m` is named `key` and holds the number printed as `val`.
pub open spec fn number_member(m: Seq<(String, JsonValue)>, i: int, key: Seq<char>, val: Seq<char>) -> bool {
    0 <= i < m.len() && m[i].0@ == key && (m[i].1 matches JsonValue::Number(t) && t@ == val)
}

/// Member `i` of `m` is named `key` and holds the boolean `val`.
pub open spec fn bool_member(m: Seq<(String, JsonValue)>, i: int, key: Seq<char>, val: bool) -> bool {
    0 <= i < m.len() && m[i].0@ == key && m[i].1 == JsonValue::Bool(val)
}

/// Member `i` of `m` is named `key`.
pub open spec fn member_named(m: Seq<(String, JsonValue)>, i: int, key: Seq<char>) -> bool {
    0 <= i < m.len() && m[i].0@ == key
}

/// The object's members, when `v` is an object.
pub open spec fn members_of(v: JsonValue) -> Seq<(String, JsonValue)> {
    match v {
        JsonValue::Object(m) => m@,
        _ => seq![],
    }
}

/// The array's items, when `v` is an array.
pub open spec fn items_of(v: JsonValue) -> Seq<JsonValue> {
    match v {
        JsonValue::Array(a) => a@,
        _ => seq![],
    }
}

/// `Value::get` through an optional value.
pub open spec fn spec_get_opt(v: Option<JsonValue>, key: Seq<char>) -> Option<JsonValue> {
    match v {
        Some(x) => spec_get(x, key),
        None => None,
    }
}

/// `Value::get` with an array index, through an optional value.
pub open spec fn spec_at_opt(v: Option<JsonValue>, i: int) -> Option<JsonValue> {
    match v {
        Some(JsonValue::Array(a)) => if 0 <= i < a@.len() {
            Some(a@[i])
        } else {
            None
        },
        _ => None,
    }
}

/// A JSON string.
pub fn jtext(s: &str) -> (r: JsonValue)
    ensures
        r matches JsonValue::Text(t) && t@ == s@,
{
    JsonValue::Text(crate::text::string_of(&chars_of(s)))
}

/// An object member.
pub fn member(key: &str, value: JsonValue) -> (r: (String, JsonValue))
    ensures
        r.0@ == key@,
        r.1 == value,
{
    (crate::text::string_of(&chars_of(key)), value)
}

impl JsonValue {
    /// The item at `i`, when this is an array that long.
    pub fn at(&self, i: usize) -> (r: Option<&JsonValue>)
        ensures
            match r {
                Some(x) => spec_at_opt(Some(*self), i as int) == Some(*x),
                None => spec_at_opt(Some(*self), i as int) is None,
            },
    {
        match self {
            JsonValue::Array(a) => if i < a.len() {
                Some(&a[i])
            } else {
                None
            },
            _ => None,
        }
    }
}

/// A JSON document read from text; `None` where the text is not JSON.
pub fn parse_json(text: &str) -> (r: Option<JsonValue>)
    ensures
        r == spec_json_parse(text@),
{
    json_parse(text)
}

} // verus!
