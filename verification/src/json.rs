//! JSON values as the views read them. Reading JSON text and writing it back out are
//! serde_json's work; the library holds the value it read as plain data.

use vstd::prelude::*;

verus! {

/// A JSON value as the library reasons about it.
pub enum JsonV {
    Null,
    Bool(bool),
    /// the number as JSON writes it
    Number(Seq<char>),
    Str(Seq<char>),
    Array(Seq<JsonV>),
    /// the members' keys and their values, in the order the value holds them
    Object(Seq<Seq<char>>, Seq<JsonV>),
}

/// A JSON value. A number is held as the text JSON writes it; an object's members are
/// held in the order serde_json keeps them.
#[derive(Debug, PartialEq)]
pub enum Json {
    Null,
    Bool(bool),
    Number(String),
    Str(String),
    Array(Vec<Json>),
    Object(Vec<(String, Json)>),
}

impl View for Json {
    type V = JsonV;

    open spec fn view(&self) -> JsonV
        decreases self,
    {
        match self {
            Json::Null => JsonV::Null,
            Json::Bool(b) => JsonV::Bool(*b),
            Json::Number(n) => JsonV::Number(n@),
            Json::Str(s) => JsonV::Str(s@),
            Json::Array(items) => JsonV::Array(
                Seq::new(
                    items.len() as nat,
                    |i: int|
                        if 0 <= i < items.len() {
                            proof {
                                assert(decreases_to!(items => items@));
                                assert(decreases_to!(items@ => items@[i]));
                            }
                            items@[i].view()
                        } else {
                            JsonV::Null
                        },
                ),
            ),
            Json::Object(members) => JsonV::Object(
                Seq::new(members.len() as nat, |i: int| members@[i].0@),
                Seq::new(
                    members.len() as nat,
                    |i: int|
                        if 0 <= i < members.len() {
                            proof {
                                assert(decreases_to!(members => members@));
                                assert(decreases_to!(members@ => members@[i]));
                                assert(decreases_to!(members@[i] => members@[i].1));
                            }
                            members@[i].1.view()
                        } else {
                            JsonV::Null
                        },
                ),
            ),
        }
    }
}

impl Clone for Json {
    #[verifier::loop_isolation(false)]
    fn clone(&self) -> (r: Json)
        ensures
            r@ == self@,
        decreases self,
    {
        match self {
            Json::Null => Json::Null,
            Json::Bool(b) => Json::Bool(*b),
            Json::Number(n) => Json::Number(n.clone()),
            Json::Str(s) => Json::Str(s.clone()),
            Json::Array(items) => {
                let mut out: Vec<Json> = Vec::new();
                for i in 0..items.len()
                    invariant
                        out.len() == i,
                        forall|k: int| 0 <= k < i ==> #[trigger] out@[k]@ == items@[k]@,
                {
                    proof {
                        assert(decreases_to!(items => items@));
                        assert(decreases_to!(items@ => items@[i as int]));
                    }
                    out.push(items[i].clone());
                }
                let r = Json::Array(out);
                assert forall|k: int| 0 <= k < items.len() implies r@->Array_0[k]
                    == self@->Array_0[k] by {
                    assert(out@[k]@ == items@[k]@);
                }
                assert(r@->Array_0 =~= self@->Array_0);
                r
            },
            Json::Object(members) => {
                let mut out: Vec<(String, Json)> = Vec::new();
                for i in 0..members.len()
                    invariant
                        out.len() == i,
                        forall|k: int|
                            #![trigger out@[k]]
                            0 <= k < i ==> out@[k].0@ == members@[k].0@ && out@[k].1@
                                == members@[k].1@,
                {
                    proof {
                        assert(decreases_to!(members => members@));
                        assert(decreases_to!(members@ => members@[i as int]));
                        assert(decreases_to!(members@[i as int] => members@[i as int].1));
                    }
                    out.push((members[i].0.clone(), members[i].1.clone()));
                }
                let r = Json::Object(out);
                assert(r@->Object_0 =~= self@->Object_0);
                assert forall|k: int| 0 <= k < members.len() implies r@->Object_1[k]
                    == self@->Object_1[k] by {
                    assert(out@[k].1@ == members@[k].1@);
                }
                assert(r@->Object_1 =~= self@->Object_1);
                r
            },
        }
    }
}

#[verifier::external_type_specification]
#[verifier::external_body]
pub struct ExJsonValue(serde_json::Value);

/// The value serde_json reads from `text`, or `None` when `text` is not one JSON value.
pub uninterp spec fn json_read(text: Seq<char>) -> Option<JsonV>;

/// `v` written out by `serde_json::to_string_pretty`.
pub uninterp spec fn json_pretty(v: JsonV) -> Seq<char>;

/// `v` written out by serde_json's `Display` for a value: compact, strings quoted.
pub uninterp spec fn json_compact(v: JsonV) -> Seq<char>;

/// Converts serde_json's value into the library's, member for member.
#[verifier::external_body]
fn from_serde(v: &serde_json::Value) -> Json {
    match v {
        serde_json::Value::Null => Json::Null,
        serde_json::Value::Bool(b) => Json::Bool(*b),
        serde_json::Value::Number(n) => Json::Number(n.to_string()),
        serde_json::Value::String(s) => Json::Str(s.clone()),
        serde_json::Value::Array(items) => Json::Array(items.iter().map(from_serde).collect()),
        serde_json::Value::Object(map) => Json::Object(
            map.iter().map(|(k, v)| (k.clone(), from_serde(v))).collect(),
        ),
    }
}

/// Converts the library's value into serde_json's. A number whose text serde_json does
/// not read as a number is carried as a string.
#[verifier::external_body]
fn to_serde(v: &Json) -> serde_json::Value {
    match v {
        Json::Null => serde_json::Value::Null,
        Json::Bool(b) => serde_json::Value::Bool(*b),
        Json::Number(n) => serde_json::from_str::<serde_json::Number>(n).map_or_else(
            |_| serde_json::Value::String(n.clone()),
            serde_json::Value::Number,
        ),
        Json::Str(s) => serde_json::Value::String(s.clone()),
        Json::Array(items) => serde_json::Value::Array(items.iter().map(to_serde).collect()),
        Json::Object(m) => serde_json::Value::Object(
            m.iter().map(|(k, v)| (k.clone(), to_serde(v))).collect(),
        ),
    }
}

/// `serde_json::from_str::<Value>`: the value `text` holds, or `None` where serde_json
/// refuses it. What it accepts is serde_json's and is left to the name [`json_read`].
#[verifier::external_body]
fn read_json(text: &str) -> (r: Option<Json>)
    ensures
        match r {
            Some(j) => json_read(text@) == Some(j@),
            None => json_read(text@) is None,
        },
{
    serde_json::from_str::<serde_json::Value>(text).ok().map(|v| from_serde(&v))
}

/// `serde_json::to_string_pretty` of the value; it does not fail on a value, whose keys
/// are strings.
#[verifier::external_body]
fn write_pretty(v: &Json) -> (r: String)
    ensures
        r@ == json_pretty(v@),
{
    serde_json::to_string_pretty(&to_serde(v)).unwrap_or_default()
}

/// serde_json's `Display` of the value: compact JSON.
#[verifier::external_body]
fn write_compact(v: &Json) -> (r: String)
    ensures
        r@ == json_compact(v@),
{
    to_serde(v).to_string()
}

/// The JSON value `text` holds, as serde_json reads it.
pub fn parse(text: &str) -> (r: Option<Json>)
    ensures
        r is Some <==> json_read(text@) is Some,
        r matches Some(j) ==> json_read(text@) == Some(j@),
{
    read_json(text)
}

/// `v` pretty-printed, as the debug log keeps it.
pub fn pretty(v: &Json) -> (r: String)
    ensures
        r@ == json_pretty(v@),
{
    write_pretty(v)
}

/// `v` as compact JSON.
pub fn compact(v: &Json) -> (r: String)
    ensures
        r@ == json_compact(v@),
{
    write_compact(v)
}

/// The index of the first of `keys` from `i` on that is `key`.
pub open spec fn key_from(keys: Seq<Seq<char>>, key: Seq<char>, i: int) -> Option<int>
    decreases keys.len() - i,
{
    if i < 0 || i >= keys.len() {
        None
    } else if keys[i] == key {
        Some(i)
    } else {
        key_from(keys, key, i + 1)
    }
}

/// The member `key` of an object, the first one of that name; `None` for a value that
/// is not an object.
pub open spec fn member(v: JsonV, key: Seq<char>) -> Option<JsonV> {
    match v {
        JsonV::Object(keys, values) => match key_from(keys, key, 0) {
            Some(i) => Some(values[i]),
            None => None,
        },
        _ => None,
    }
}

/// The member `key` of an object, the first one of that name; `None` for a value that
/// is not an object.
pub fn get<'a>(v: &'a Json, key: &str) -> (r: Option<&'a Json>)
    ensures
        match r {
            Some(m) => member(v@, key@) == Some(m@),
            None => member(v@, key@) is None,
        },
{
    let members = match v {
        Json::Object(members) => members,
        _ => return None,
    };
    let ghost keys = v@->Object_0;
    let ghost values = v@->Object_1;
    let mut i: usize = 0;
    while i < members.len()
        invariant
            v@ == JsonV::Object(keys, values),
            *v == Json::Object(*members),
            i <= members.len() == keys.len() == values.len(),
            forall|k: int| 0 <= k < members.len() ==> keys[k] == #[trigger] members@[k].0@,
            forall|k: int| 0 <= k < members.len() ==> values[k] == #[trigger] members@[k].1@,
            key_from(keys, key@, 0) == key_from(keys, key@, i as int),
        decreases members.len() - i,
    {
        if crate::text::str_eq(members[i].0.as_str(), key) {
            assert(keys[i as int] == key@);
            return Some(&members[i].1);
        }
        i = i + 1;
    }
    None
}

} // verus!
