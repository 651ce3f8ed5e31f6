//! A JSON document as the library reads it: the values that forge, herdr, and comment-store
//! payloads carry, held as plain data so the readers over them can be verified.

use vstd::prelude::*;

use crate::text::str_eq;

verus! {

/// One JSON value.
#[derive(Debug, PartialEq, Eq)]
pub enum Json {
    Null,
    Bool(bool),
    /// A non-negative integer that fits `u64`.
    UInt(u64),
    /// A negative integer that fits `i64`.
    NegInt(i64),
    /// Any other number (a fraction, an exponent, or out of integer range), kept as its
    /// text so that a document can be written back unchanged; its value is not read here.
    Float(String),
    Str(String),
    Array(Vec<Json>),
    /// Members in document order.
    Object(Vec<(String, Json)>),
}

/// The index of the first member named `key` among `members` at or after `from`.
pub open spec fn member_index(members: Seq<(String, Json)>, key: Seq<char>, from: int) -> int
    decreases members.len() - from,
{
    if from < 0 || from >= members.len() {
        -1
    } else if members[from].0@ == key {
        from
    } else {
        member_index(members, key, from + 1)
    }
}

/// The member `key` of an object (`None` for a missing key or a non-object).
pub open spec fn get_spec(v: Json, key: Seq<char>) -> Option<Json> {
    match v {
        Json::Object(members) => {
            let i = member_index(members@, key, 0);
            if i < 0 {
                None
            } else {
                Some(members@[i].1)
            }
        },
        _ => None,
    }
}

/// `v[key]`: the member, or `Null` when absent.
pub open spec fn at_spec(v: Json, key: Seq<char>) -> Json {
    match get_spec(v, key) {
        Some(x) => x,
        None => Json::Null,
    }
}

/// `v[i]`: the array element, or `Null` when absent.
pub open spec fn idx_spec(v: Json, i: int) -> Json {
    match v {
        Json::Array(items) => if 0 <= i < items@.len() {
            items@[i]
        } else {
            Json::Null
        },
        _ => Json::Null,
    }
}

/// The string payload, if a string.
pub open spec fn str_spec(v: Json) -> Option<Seq<char>> {
    match v {
        Json::Str(s) => Some(s@),
        _ => None,
    }
}

/// The boolean payload, if a boolean.
pub open spec fn bool_spec(v: Json) -> Option<bool> {
    match v {
        Json::Bool(b) => Some(b),
        _ => None,
    }
}

/// The value as a `u64`, if a non-negative integer.
pub open spec fn u64_spec(v: Json) -> Option<u64> {
    match v {
        Json::UInt(n) => Some(n),
        _ => None,
    }
}

/// The value as an `i64`, if an integer in range.
pub open spec fn i64_spec(v: Json) -> Option<i64> {
    match v {
        Json::UInt(n) => if n <= i64::MAX as u64 {
            Some(n as i64)
        } else {
            None
        },
        Json::NegInt(n) => Some(n),
        _ => None,
    }
}

/// The elements, if an array.
pub open spec fn array_spec(v: Json) -> Option<Seq<Json>> {
    match v {
        Json::Array(items) => Some(items@),
        _ => None,
    }
}

impl Json {
    /// The member `key`, if this is an object holding it.
    pub fn get(&self, key: &str) -> (out: Option<&Json>)
        ensures
            match out {
                Some(x) => get_spec(*self, key@) == Some(*x),
                None => get_spec(*self, key@) is None,
            },
    {
        match self {
            Json::Object(members) => {
                let mut i: usize = 0;
                while i < members.len()
                    invariant
                        i <= members@.len(),
                        *self == Json::Object(*members),
                        member_index(members@, key@, 0) == member_index(members@, key@, i as int),
                    decreases members@.len() - i,
                {
                    if str_eq(members[i].0.as_str(), key) {
                        assert(members@[i as int].0@ == key@);
                        assert(member_index(members@, key@, i as int) == i as int);
                        return Some(&members[i].1);
                    }
                    i = i + 1;
                }
                None
            },
            _ => None,
        }
    }

    /// The element `i`, if this is an array that long.
    pub fn idx(&self, i: usize) -> (out: Option<&Json>)
        ensures
            match out {
                Some(x) => *x == idx_spec(*self, i as int) && (*self matches Json::Array(items)
                    && i < items@.len()),
                None => idx_spec(*self, i as int) == Json::Null && !(*self matches Json::Array(
                    items,
                ) && i < items@.len()),
            },
    {
        match self {
            Json::Array(items) => if i < items.len() {
                Some(&items[i])
            } else {
                None
            },
            _ => None,
        }
    }

    /// The string payload.
    pub fn as_str(&self) -> (out: Option<&str>)
        ensures
            match out {
                Some(s) => str_spec(*self) == Some(s@),
                None => str_spec(*self) is None,
            },
    {
        match self {
            Json::Str(s) => Some(s.as_str()),
            _ => None,
        }
    }

    /// The boolean payload.
    pub fn as_bool(&self) -> (out: Option<bool>)
        ensures
            out == bool_spec(*self),
    {
        match self {
            Json::Bool(b) => Some(*b),
            _ => None,
        }
    }

    /// The value as a `u64`.
    pub fn as_u64(&self) -> (out: Option<u64>)
        ensures
            out == u64_spec(*self),
    {
        match self {
            Json::UInt(n) => Some(*n),
            _ => None,
        }
    }

    /// The value as an `i64`.
    pub fn as_i64(&self) -> (out: Option<i64>)
        ensures
            out == i64_spec(*self),
    {
        match self {
            Json::UInt(n) => if *n <= 9223372036854775807u64 {
                Some(*n as i64)
            } else {
                None
            },
            Json::NegInt(n) => Some(*n),
            _ => None,
        }
    }

    /// The elements, if an array.
    pub fn as_array(&self) -> (out: Option<&Vec<Json>>)
        ensures
            match out {
                Some(a) => array_spec(*self) == Some(a@),
                None => array_spec(*self) is None,
            },
    {
        match self {
            Json::Array(items) => Some(items),
            _ => None,
        }
    }

    /// Whether this is `null`.
    pub fn is_null(&self) -> (b: bool)
        ensures
            b == (*self == Json::Null),
    {
        match self {
            Json::Null => true,
            _ => false,
        }
    }
}

/// `v[key]` as a string (`None` when absent or not a string).
pub fn str_field<'a>(v: &'a Json, key: &str) -> (out: Option<&'a str>)
    ensures
        match out {
            Some(s) => str_spec(at_spec(*v, key@)) == Some(s@),
            None => str_spec(at_spec(*v, key@)) is None,
        },
{
    match v.get(key) {
        Some(x) => x.as_str(),
        None => None,
    }
}

/// `v[key]` as a boolean.
pub fn bool_field(v: &Json, key: &str) -> (out: Option<bool>)
    ensures
        out == bool_spec(at_spec(*v, key@)),
{
    match v.get(key) {
        Some(x) => x.as_bool(),
        None => None,
    }
}

/// `v[key]` as a `u64`.
pub fn u64_field(v: &Json, key: &str) -> (out: Option<u64>)
    ensures
        out == u64_spec(at_spec(*v, key@)),
{
    match v.get(key) {
        Some(x) => x.as_u64(),
        None => None,
    }
}

/// The value at a path of member names (`Null` where a step is missing).
pub open spec fn path_spec(v: Json, keys: Seq<&str>) -> Json
    decreases keys.len(),
{
    if keys.len() == 0 {
        v
    } else {
        path_spec(at_spec(v, keys[0]@), keys.drop_first())
    }
}

/// The value at a path of member names, if every step is present.
pub fn at_path<'a>(v: &'a Json, keys: &[&str]) -> (out: Option<&'a Json>)
    ensures
        match out {
            Some(x) => *x == path_spec(*v, keys@),
            None => path_spec(*v, keys@) == Json::Null,
        },
{
    let mut cur = v;
    let mut i: usize = 0;
    proof {
        assert(keys@.skip(0) =~= keys@);
    }
    while i < keys.len()
        invariant
            i <= keys@.len(),
            path_spec(*v, keys@) == path_spec(*cur, keys@.skip(i as int)),
        decreases keys@.len() - i,
    {
        proof {
            assert(keys@.skip(i as int).drop_first() =~= keys@.skip(i + 1));
            assert(keys@.skip(i as int)[0] == keys@[i as int]);
        }
        match cur.get(keys[i]) {
            Some(x) => {
                cur = x;
            },
            None => {
                proof {
                    lemma_null_path(keys@.skip(i + 1));
                }
                return None;
            },
        }
        i = i + 1;
    }
    proof {
        assert(keys@.skip(keys@.len() as int) =~= Seq::<&str>::empty());
    }
    Some(cur)
}

/// Every path from `Null` leads to `Null`.
pub proof fn lemma_null_path(keys: Seq<&str>)
    ensures
        path_spec(Json::Null, keys) == Json::Null,
    decreases keys.len(),
{
    if keys.len() > 0 {
        lemma_null_path(keys.drop_first());
    }
}


/// A found member index is in range and names the key.
pub proof fn lemma_member_index(members: Seq<(String, Json)>, key: Seq<char>, from: int)
    requires
        0 <= from,
    ensures
        member_index(members, key, from) == -1 || (from <= member_index(members, key, from)
            < members.len() && members[member_index(members, key, from)].0@ == key),
    decreases members.len() - from,
{
    if from < members.len() && members[from].0@ != key {
        lemma_member_index(members, key, from + 1);
    }
}

/// A member is structurally smaller than the object holding it.
pub proof fn lemma_member_smaller(v: Json, key: Seq<char>)
    requires
        get_spec(v, key) is Some,
    ensures
        decreases_to!(v => get_spec(v, key)->0),
{
    if let Json::Object(members) = v {
        let i = member_index(members@, key, 0);
        lemma_member_index(members@, key, 0);
        assert(decreases_to!(v => members));
        assert(decreases_to!(members => members@));
        assert(decreases_to!(members@ => members@[i]));
        assert(decreases_to!(members@[i] => members@[i].1));
    }
}

/// An array element is structurally smaller than the array.
pub proof fn lemma_item_smaller(v: Json, i: int)
    requires
        v matches Json::Array(items) && 0 <= i < items@.len(),
    ensures
        decreases_to!(v => idx_spec(v, i)),
{
    if let Json::Array(items) = v {
        assert(decreases_to!(v => items));
        assert(decreases_to!(items => items@));
        assert(decreases_to!(items@ => items@[i]));
    }
}
/// A string member's text, or the empty text.
pub open spec fn text_of(v: Json) -> Seq<char> {
    match str_spec(v) {
        Some(t) => t,
        None => Seq::empty(),
    }
}

/// A boolean member's value, `false` when absent.
pub open spec fn flag_of(v: Json) -> bool {
    match bool_spec(v) {
        Some(b) => b,
        None => false,
    }
}

/// A string member's text, or the empty text.
pub fn text_field<'a>(v: &'a Json, key: &str) -> (t: &'a str)
    ensures
        t@ == text_of(at_spec(*v, key@)),
{
    match str_field(v, key) {
        Some(t) => t,
        None => {
            let e = "";
            proof {
                reveal_strlit("");
            }
            e
        },
    }
}

/// A boolean member's value, `false` when absent.
pub fn flag_field(v: &Json, key: &str) -> (b: bool)
    ensures
        b == flag_of(at_spec(*v, key@)),
{
    match bool_field(v, key) {
        Some(b) => b,
        None => false,
    }
}

/// `v[key]`, or `Null` when absent.
pub fn member<'a>(v: &'a Json, key: &str) -> (out: &'a Json)
    ensures
        *out == at_spec(*v, key@),
{
    match v.get(key) {
        Some(x) => x,
        None => &NULL_JSON,
    }
}

/// The `null` value.
pub const NULL_JSON: Json = Json::Null;

/// The item `i` of an array value, or `Null`.
pub fn item<'a>(v: &'a Json, i: usize) -> (out: &'a Json)
    ensures
        *out == idx_spec(*v, i as int),
{
    match v.idx(i) {
        Some(x) => x,
        None => &NULL_JSON,
    }
}


/// `serde_json::Value`, carried through the conversions below.
#[verifier::external_type_specification]
#[verifier::external_body]
pub struct ExJsonValue(serde_json::Value);

/// What `serde_json::from_str::<serde_json::Value>` reads from a text: the document (objects
/// keyed in sorted order, a repeated key keeping its last value), or its error message.
pub uninterp spec fn json_parse(text: Seq<char>) -> Result<Json, Seq<char>>;

/// The text `serde_json` renders for a document (`Value::to_string`).
pub uninterp spec fn json_render(v: Json) -> Seq<char>;

/// A parse outcome with its error message as plain characters.
pub open spec fn parse_view(r: Result<Json, String>) -> Result<Json, Seq<char>> {
    match r {
        Ok(v) => Ok(v),
        Err(e) => Err(e@),
    }
}

/// The document of a text, as `serde_json::from_str` reads it: numbers that fit `u64` or
/// `i64` keep their value, any other keeps its text; the error message when it is not JSON.
#[verifier::external_body]
pub fn parse_json(text: &str) -> (r: Result<Json, String>)
    ensures
        parse_view(r) == json_parse(text@),
{
    match serde_json::from_str::<serde_json::Value>(text) {
        Ok(v) => Ok(json_of(v)),
        Err(e) => Err(e.to_string()),
    }
}

/// A scalar that converts to a `serde_json::Value` and back unchanged: `null`, a boolean, a
/// string, or an integer held in the variant its sign selects.
pub open spec fn plain_scalar(v: Json) -> bool {
    match v {
        Json::Null | Json::Bool(_) | Json::Str(_) | Json::UInt(_) => true,
        Json::NegInt(n) => n < 0,
        _ => false,
    }
}

/// A flat document: an object whose member keys are pairwise distinct and whose values are
/// plain scalars.
pub open spec fn flat_doc(v: Json) -> bool {
    v matches Json::Object(m) && (forall|i: int, j: int|
        0 <= i < j < m@.len() ==> #[trigger] m@[i].0@ != #[trigger] m@[j].0@) && (forall|i: int|
        0 <= i < m@.len() ==> plain_scalar(#[trigger] m@[i].1))
}

/// Whether `text`, when `v` is flat, parses to an object with `v`'s member under every key.
pub open spec fn reads_back_flat(text: Seq<char>, v: Json) -> bool {
    flat_doc(v) ==> (json_parse(text) matches Ok(w) && w is Object && forall|k: Seq<char>|
        #[trigger] get_spec(w, k) == get_spec(v, k))
}

/// The text `serde_json` renders for a document (`Value::to_string`). A flat document's text
/// parses back (`serde_json::from_str`) to an object with the same member under every key:
/// `serde_json` writes strings and integers exactly and reads them back to the same `Value`,
/// and a `Value`'s object is a map from key to value, so only the members' order may change.
/// Nothing is claimed of the read-back of other documents.
#[verifier::external_body]
pub fn json_string(v: &Json) -> (s: String)
    ensures
        s@ == json_render(*v),
        reads_back_flat(s@, *v),
{
    value_of(v).to_string()
}

/// The one-for-one conversion of a `serde_json::Value` into the library's model, used by
/// `parse_json`'s body.
#[verifier::external_body]
fn json_of(v: serde_json::Value) -> Json {
    match v {
        serde_json::Value::Null => Json::Null,
        serde_json::Value::Bool(b) => Json::Bool(b),
        serde_json::Value::Number(n) => match (n.as_u64(), n.as_i64()) {
            (Some(u), _) => Json::UInt(u),
            (None, Some(i)) => Json::NegInt(i),
            (None, None) => Json::Float(n.to_string()),
        },
        serde_json::Value::String(t) => Json::Str(t),
        serde_json::Value::Array(a) => Json::Array(a.into_iter().map(json_of).collect()),
        serde_json::Value::Object(m) => Json::Object(m.into_iter().map(|(k, x)| (k, json_of(x))).collect()),
    }
}

/// The one-for-one conversion of the library's model into a `serde_json::Value`, used by
/// `json_string`'s body (a kept number text that no longer parses becomes `null`).
#[verifier::external_body]
fn value_of(v: &Json) -> serde_json::Value {
    match v {
        Json::Null => serde_json::Value::Null,
        Json::Bool(b) => serde_json::Value::Bool(*b),
        Json::UInt(u) => serde_json::Value::from(*u),
        Json::NegInt(i) => serde_json::Value::from(*i),
        Json::Float(t) => t.parse::<serde_json::Number>().map_or(serde_json::Value::Null, serde_json::Value::Number),
        Json::Str(t) => serde_json::Value::String(t.clone()),
        Json::Array(a) => serde_json::Value::Array(a.iter().map(value_of).collect()),
        Json::Object(m) => serde_json::Value::Object(m.iter().map(|(k, x)| (k.clone(), value_of(x))).collect()),
    }
}

} // verus!
