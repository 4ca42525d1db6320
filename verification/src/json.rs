//! JSON values as the query compiler reads them, with parsing and
//! rendering left to `serde_json`.

use vstd::prelude::*;

verus! {

/// `serde_json::Value`, which only the conversions below look into.
#[verifier::external_type_specification]
#[verifier::external_body]
pub struct ExJsonValue(serde_json::Value);

/// A JSON value. A number is held as its literal text.
#[derive(Debug, PartialEq, Eq)]
pub enum Json {
    Null,
    Bool(bool),
    Number(String),
    Text(String),
    Array(Vec<Json>),
    Object(Vec<(String, Json)>),
}

/// The mathematical value of a [`Json`].
pub enum JsonValue {
    Null,
    Bool(bool),
    Number(Seq<char>),
    Text(Seq<char>),
    Array(Seq<JsonValue>),
    Object(Seq<(Seq<char>, JsonValue)>),
}

/// The value that a [`Json`] stands for.
pub open spec fn value_of(json: Json) -> JsonValue
    decreases json,
{
    match json {
        Json::Null => JsonValue::Null,
        Json::Bool(b) => JsonValue::Bool(b),
        Json::Number(t) => JsonValue::Number(t@),
        Json::Text(t) => JsonValue::Text(t@),
        Json::Array(items) => JsonValue::Array(
            Seq::new(
                items@.len(),
                |i: int|
                    if 0 <= i < items@.len() {
                        value_of(items@[i])
                    } else {
                        JsonValue::Null
                    },
            ),
        ),
        Json::Object(members) => JsonValue::Object(
            Seq::new(
                members@.len(),
                |i: int|
                    if 0 <= i < members@.len() {
                        (members@[i].0@, value_of(members@[i].1))
                    } else {
                        (Seq::empty(), JsonValue::Null)
                    },
            ),
        ),
    }
}

impl View for Json {
    type V = JsonValue;

    open spec fn view(&self) -> JsonValue {
        value_of(*self)
    }
}

/// The view of an array or an object, item by item.
pub proof fn lemma_view_items(value: Json)
    ensures
        value matches Json::Array(items) ==> value@ is Array && value@->Array_0.len()
            == items@.len() && forall|k: int|
            0 <= k < items@.len() ==> (#[trigger] value@->Array_0[k]) == items@[k]@,
        value matches Json::Object(members) ==> value@ is Object && value@->Object_0.len()
            == members@.len() && forall|k: int|
            0 <= k < members@.len() ==> (#[trigger] value@->Object_0[k]).0 == members@[k].0@
                && value@->Object_0[k].1 == members@[k].1@,
        value is Null ==> value@ is Null,
        value matches Json::Bool(b) ==> value@ == JsonValue::Bool(b),
        value matches Json::Number(t) ==> value@ == JsonValue::Number(t@),
        value matches Json::Text(t) ==> value@ == JsonValue::Text(t@),
{
}

impl Clone for Json {
    fn clone(&self) -> (r: Json)
        ensures
            r@ == self@,
        decreases self,
    {
        match self {
            Json::Null => Json::Null,
            Json::Bool(b) => Json::Bool(*b),
            Json::Number(t) => Json::Number(t.clone()),
            Json::Text(t) => Json::Text(t.clone()),
            Json::Array(items) => {
                let mut out: Vec<Json> = Vec::new();
                let mut i: usize = 0;
                while i < items.len()
                    invariant
                        *self == Json::Array(*items),
                        i <= items.len(),
                        out@.len() == i,
                        forall|k: int| 0 <= k < i ==> out@[k]@ == items@[k]@,
                    decreases items.len() - i,
                {
                    assert(decreases_to!(items => items[i as int])) by {
                        vstd::std_specs::vec::axiom_vec_index_decreases(*items, i as int);
                    }
                    assert(decreases_to!(self => self->Array_0[i as int]));
                    out.push(items[i].clone());
                    i += 1;
                }
                let r = Json::Array(out);
                assert(r@->Array_0 =~= self@->Array_0);
                r
            },
            Json::Object(members) => {
                let mut out: Vec<(String, Json)> = Vec::new();
                let mut i: usize = 0;
                while i < members.len()
                    invariant
                        *self == Json::Object(*members),
                        i <= members.len(),
                        out@.len() == i,
                        forall|k: int|
                            0 <= k < i ==> out@[k].0@ == members@[k].0@ && out@[k].1@
                                == members@[k].1@,
                    decreases members.len() - i,
                {
                    assert(decreases_to!(members => members[i as int])) by {
                        vstd::std_specs::vec::axiom_vec_index_decreases(*members, i as int);
                    }
                    assert(decreases_to!(self => self->Object_0[i as int].1));
                    out.push((members[i].0.clone(), members[i].1.clone()));
                    i += 1;
                }
                let r = Json::Object(out);
                assert(r@->Object_0 =~= self@->Object_0);
                r
            },
        }
    }
}

/// What a `serde_json::Value` holds: its variant and, item by item, what is
/// in it; a number as the text that `serde_json` displays for it.
pub uninterp spec fn held(value: serde_json::Value) -> JsonValue;

/// What `serde_json` makes of a text: what the value that it reads holds,
/// or `None` where the text is no JSON.
pub uninterp spec fn json_parsed(text: Seq<char>) -> Option<JsonValue>;

/// What a value holds once `serde_json` has taken it: a number is read from
/// its text and is null where the text writes none, and the members of an
/// object are as `serde_json` keeps them.
pub uninterp spec fn settled(value: JsonValue) -> JsonValue;

/// The compact JSON text that `serde_json` writes for what a value holds.
pub uninterp spec fn json_written(value: JsonValue) -> Seq<char>;

/// `serde_json::from_str` at `serde_json::Value`: the value read from
/// `text`, or `None` where `serde_json` reports an error. What it holds is a
/// function of the text alone.
#[verifier::external_body]
fn read_value(text: &str) -> (r: Option<serde_json::Value>)
    ensures
        match r {
            Some(v) => json_parsed(text@) == Some(held(v)),
            None => json_parsed(text@) is None,
        },
{
    serde_json::from_str::<serde_json::Value>(text).ok()
}

/// Moves a `serde_json::Value` into a [`Json`], variant by variant and item
/// by item; a number becomes the text of `serde_json::Number`'s `to_string`.
/// The result is what the value holds.
#[verifier::external_body]
fn lift(value: serde_json::Value) -> (r: Json)
    ensures
        r@ == held(value),
{
    match value {
        serde_json::Value::Null => Json::Null,
        serde_json::Value::Bool(b) => Json::Bool(b),
        serde_json::Value::Number(n) => Json::Number(n.to_string()),
        serde_json::Value::String(s) => Json::Text(s),
        serde_json::Value::Array(items) => Json::Array(items.into_iter().map(lift).collect()),
        serde_json::Value::Object(members) => Json::Object(
            members.into_iter().map(|(k, v)| (k, lift(v))).collect(),
        ),
    }
}

/// Moves a [`Json`] into a `serde_json::Value`, variant by variant and item
/// by item; a number goes through `serde_json::Number`'s `from_str`, and is
/// null where that reports an error. What the result holds is a function of
/// the value alone.
#[verifier::external_body]
fn lower(value: &Json) -> (r: serde_json::Value)
    ensures
        held(r) == settled(value@),
{
    match value {
        Json::Null => serde_json::Value::Null,
        Json::Bool(b) => serde_json::Value::Bool(*b),
        Json::Number(t) => t.parse().map_or(serde_json::Value::Null, serde_json::Value::Number),
        Json::Text(s) => serde_json::Value::String(s.clone()),
        Json::Array(items) => serde_json::Value::Array(items.iter().map(lower).collect()),
        Json::Object(members) => serde_json::Value::Object(
            members.iter().map(|m| (m.0.clone(), lower(&m.1))).collect(),
        ),
    }
}

/// `serde_json::Value`'s `to_string`: the compact JSON text of the value, a
/// function of what it holds.
#[verifier::external_body]
fn write_value(value: &serde_json::Value) -> (r: String)
    ensures
        r@ == json_written(held(*value)),
{
    value.to_string()
}

/// The compact JSON text of a value.
pub open spec fn json_rendered(value: JsonValue) -> Seq<char> {
    json_written(settled(value))
}

/// The value under `key` in the members of an object: that of the first
/// member with that key.
pub open spec fn member(members: Seq<(Seq<char>, JsonValue)>, key: Seq<char>) -> Option<
    JsonValue,
>
    decreases members.len(),
{
    if members.len() == 0 {
        None
    } else if members[0].0 == key {
        Some(members[0].1)
    } else {
        member(members.drop_first(), key)
    }
}

/// The value under `key` where `value` is an object that has one.
pub open spec fn field(value: JsonValue, key: Seq<char>) -> Option<JsonValue> {
    match value {
        JsonValue::Object(members) => member(members, key),
        _ => None,
    }
}

/// The text under `key` in an entry; empty where there is none or it is no
/// string.
pub open spec fn text_field(entry: JsonValue, key: Seq<char>) -> Seq<char> {
    match field(entry, key) {
        Some(JsonValue::Text(t)) => t,
        _ => Seq::empty(),
    }
}

/// The text that a pattern is built from: `NULL` for null, the literal for
/// a boolean or a number, a string as it is, and the compact JSON text of
/// an array or an object.
pub open spec fn plain_text(value: JsonValue) -> Seq<char> {
    match value {
        JsonValue::Null => "NULL"@,
        JsonValue::Bool(b) => if b { "true"@ } else { "false"@ },
        JsonValue::Number(t) => t,
        JsonValue::Text(t) => t,
        _ => json_rendered(value),
    }
}

impl Json {
    /// Reads `text` as JSON; `None` where it is none.
    pub fn parse(text: &str) -> (r: Option<Json>)
        ensures
            match r {
                Some(j) => json_parsed(text@) == Some(j@),
                None => json_parsed(text@) is None,
            },
    {
        match read_value(text) {
            Some(value) => Some(lift(value)),
            None => None,
        }
    }

    /// The compact JSON text of the value.
    pub fn render(&self) -> (r: String)
        ensures
            r@ == json_rendered(self@),
    {
        let value = lower(self);
        write_value(&value)
    }

    /// The value under `key`, where this is an object that has one.
    pub fn get(&self, key: &str) -> (r: Option<&Json>)
        ensures
            match r {
                Some(j) => field(self@, key@) == Some(j@),
                None => field(self@, key@) is None,
            },
    {
        match self {
            Json::Object(members) => {
                let wanted = String::from_str(key);
                let ghost all = self@->Object_0;
                let mut i: usize = 0;
                proof {
                    lemma_view_items(*self);
                    assert(all.skip(0) =~= all);
                }
                while i < members.len()
                    invariant
                        *self == Json::Object(*members),
                        all == self@->Object_0,
                        all.len() == members@.len(),
                        forall|k: int|
                            0 <= k < all.len() ==> (#[trigger] all[k]).0 == members@[k].0@
                                && all[k].1 == members@[k].1@,
                        wanted@ == key@,
                        i <= members.len(),
                        member(all, key@) == member(all.skip(i as int), key@),
                    decreases members.len() - i,
                {
                    proof {
                        assert(all.skip(i as int).drop_first() =~= all.skip(i + 1));
                        assert(all.skip(i as int)[0] == all[i as int]);
                    }
                    if members[i].0 == wanted {
                        return Some(&members[i].1);
                    }
                    i += 1;
                }
                assert(all.skip(i as int).len() == 0);
                None
            },
            _ => None,
        }
    }

    /// The text that a pattern is built from.
    pub fn plain_text(&self) -> (r: String)
        ensures
            r@ == plain_text(self@),
    {
        match self {
            Json::Null => String::from_str("NULL"),
            Json::Bool(b) => if *b {
                String::from_str("true")
            } else {
                String::from_str("false")
            },
            Json::Number(t) => t.clone(),
            Json::Text(t) => t.clone(),
            _ => self.render(),
        }
    }
}

/// The text under `key` in `entry`; empty where there is none or it is no
/// string.
pub fn text_field_of(entry: &Json, key: &str) -> (r: String)
    ensures
        r@ == text_field(entry@, key@),
{
    match entry.get(key) {
        Some(Json::Text(t)) => t.clone(),
        _ => String::new(),
    }
}

} // verus!
