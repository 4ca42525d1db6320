//! Entities on the wire: a JSON object with one member for each field that
//! was supplied, under the field's name in camel case.
//!
//! An undefined field has no member, a null field an explicit null, a
//! value its JSON form. Reading maps a missing member back to undefined.

use crate::entity::{Entity, Scalar, ScalarValue};
use crate::json::{field, member, Json, JsonValue};
use crate::null::Null;
use crate::number::{decimal, lemma_numeral_of_decimal, numeral_i64, parse_i64, signed_decimal};
use crate::schema::{kind_at, Kind, Schema};
use crate::text::chars_of;
use vstd::prelude::*;

verus! {

/// The capital of an ASCII small letter; any other character itself.
pub open spec fn ascii_upper(c: char) -> char {
    if 'a' <= c && c <= 'z' {
        ((c as u8) - 32) as char
    } else {
        c
    }
}

/// The small letter of an ASCII capital; any other character itself.
pub open spec fn ascii_lower(c: char) -> char {
    if 'A' <= c && c <= 'Z' {
        ((c as u8) + 32) as char
    } else {
        c
    }
}

/// The capital of an ASCII small letter; any other character itself.
pub fn to_ascii_upper(c: char) -> (r: char)
    ensures
        r == ascii_upper(c),
{
    if 'a' <= c && c <= 'z' {
        ((c as u8) - 32) as char
    } else {
        c
    }
}

/// The small letter of an ASCII capital; any other character itself.
pub fn to_ascii_lower(c: char) -> (r: char)
    ensures
        r == ascii_lower(c),
{
    if 'A' <= c && c <= 'Z' {
        ((c as u8) + 32) as char
    } else {
        c
    }
}

/// A name in Pascal case: the underscores dropped, and the character at the
/// start and each one after an underscore made a capital.
pub open spec fn pascal(s: Seq<char>) -> Seq<char>
    decreases s.len(),
{
    if s.len() == 0 {
        Seq::empty()
    } else {
        let front = pascal(s.drop_last());
        if s.last() == '_' {
            front
        } else if s.len() == 1 || s[s.len() - 2] == '_' {
            front.push(ascii_upper(s.last()))
        } else {
            front.push(s.last())
        }
    }
}

/// A name in camel case: the name in Pascal case with a small letter at
/// the start. This is the key of a field on the wire.
pub open spec fn camel(s: Seq<char>) -> Seq<char> {
    let p = pascal(s);
    if p.len() == 0 {
        p
    } else {
        seq![ascii_lower(p[0])] + p.skip(1)
    }
}

/// The name in camel case.
pub fn camel_case(name: &str) -> (r: String)
    ensures
        r@ == camel(name@),
{
    let chars = chars_of(name);
    let mut upper: Vec<char> = Vec::new();
    let mut capitalize = true;
    let mut i: usize = 0;
    assert(chars@.take(0) =~= Seq::<char>::empty());
    while i < chars.len()
        invariant
            i <= chars.len(),
            upper@ == pascal(chars@.take(i as int)),
            capitalize == (i == 0 || chars@[i - 1] == '_'),
        decreases chars.len() - i,
    {
        proof {
            assert(chars@.take(i + 1).drop_last() =~= chars@.take(i as int));
            assert(chars@.take(i + 1).last() == chars@[i as int]);
            if i > 0 {
                assert(chars@.take(i + 1)[i - 1] == chars@[i - 1]);
            }
        }
        if chars[i] == '_' {
            capitalize = true;
        } else if capitalize {
            upper.push(to_ascii_upper(chars[i]));
            capitalize = false;
        } else {
            upper.push(chars[i]);
        }
        i += 1;
    }
    assert(chars@.take(i as int) =~= chars@);
    let mut out = String::new();
    let mut k: usize = 0;
    while k < upper.len()
        invariant
            k <= upper.len(),
            upper@ == pascal(name@),
            k == 0 ==> out@.len() == 0,
            k > 0 ==> out@ == seq![ascii_lower(upper@[0])] + upper@.subrange(1, k as int),
        decreases upper.len() - k,
    {
        if k == 0 {
            out.push(to_ascii_lower(upper[k]));
            assert(out@ =~= seq![ascii_lower(upper@[0])] + upper@.subrange(1, 1));
        } else {
            out.push(upper[k]);
            assert(out@ =~= seq![ascii_lower(upper@[0])] + upper@.subrange(1, k + 1));
        }
        k += 1;
    }
    proof {
        if upper@.len() > 0 {
            assert(upper@.subrange(1, upper@.len() as int) =~= upper@.skip(1));
        } else {
            assert(out@ =~= upper@);
        }
    }
    out
}

/// The JSON form of a value: a string for a text, a number for an integer.
pub open spec fn scalar_json(value: ScalarValue) -> JsonValue {
    match value {
        ScalarValue::Text(t) => JsonValue::Text(t),
        ScalarValue::Int(n) => JsonValue::Number(signed_decimal(n as int)),
    }
}

/// The value of a kind that a JSON value stands for: a text for a string,
/// an integer for a number that is the numeral of one. `None` for any
/// other JSON value.
pub open spec fn json_scalar(value: JsonValue, kind: Kind) -> Option<ScalarValue> {
    match kind {
        Kind::Text => match value {
            JsonValue::Text(t) => Some(ScalarValue::Text(t)),
            _ => None,
        },
        Kind::Int => match value {
            JsonValue::Number(t) => match numeral_i64(t) {
                Some(n) => Some(ScalarValue::Int(n)),
                None => None,
            },
            _ => None,
        },
    }
}

/// The key of field `index` on the wire.
pub open spec fn key_at(schema: &Schema, index: int) -> Seq<char> {
    camel(schema.fields@[index].name@)
}

/// The member that a field is written as, if any: none for an undefined
/// field, an explicit null for a null one, the value's JSON form for a
/// value.
pub open spec fn written(field: Null<ScalarValue>) -> Option<JsonValue> {
    match field {
        Null::Undefined => None,
        Null::Null => Some(JsonValue::Null),
        Null::Value(v) => Some(scalar_json(v)),
    }
}

/// The members of the first `upto` fields of an entity, in order.
pub open spec fn members_upto(entity: Seq<Null<ScalarValue>>, schema: &Schema, upto: int) -> Seq<
    (Seq<char>, JsonValue),
>
    decreases upto,
{
    if upto <= 0 {
        Seq::empty()
    } else {
        let front = members_upto(entity, schema, upto - 1);
        match written(entity[upto - 1]) {
            Some(v) => front.push((key_at(schema, upto - 1), v)),
            None => front,
        }
    }
}

/// The number of fields that both the entity and the schema have.
pub open spec fn described_len(entity: Seq<Null<ScalarValue>>, schema: &Schema) -> int {
    if entity.len() <= schema.fields@.len() {
        entity.len() as int
    } else {
        schema.fields@.len() as int
    }
}

/// The wire form of an entity: the members of the fields that the schema
/// describes.
pub open spec fn entity_json(entity: Seq<Null<ScalarValue>>, schema: &Schema) -> JsonValue {
    JsonValue::Object(members_upto(entity, schema, described_len(entity, schema)))
}

/// The field that a member, or its absence, is read as; `None` where the
/// member holds a value that is not of the field's kind.
pub open spec fn read_member(found: Option<JsonValue>, kind: Kind) -> Option<Null<ScalarValue>> {
    match found {
        None => Some(Null::Undefined),
        Some(JsonValue::Null) => Some(Null::Null),
        Some(v) => match json_scalar(v, kind) {
            Some(s) => Some(Null::Value(s)),
            None => None,
        },
    }
}

/// What field `index` of the schema is read as from a JSON value.
pub open spec fn read_at(json: JsonValue, schema: &Schema, index: int) -> Option<
    Null<ScalarValue>,
> {
    read_member(field(json, key_at(schema, index)), kind_at(schema, index))
}

/// Whether a JSON value can be read as an entity of the schema: it is an
/// object, and each member under the key of a field is null or of the
/// field's kind.
pub open spec fn readable(json: JsonValue, schema: &Schema) -> bool {
    json is Object && forall|i: int|
        0 <= i < schema.fields@.len() ==> (#[trigger] read_at(json, schema, i)) is Some
}

/// The entity that a JSON value is read as.
pub open spec fn json_entity(json: JsonValue, schema: &Schema) -> Option<Seq<Null<ScalarValue>>> {
    if readable(json, schema) {
        Some(Seq::new(schema.fields@.len(), |i: int| read_at(json, schema, i)->Some_0))
    } else {
        None
    }
}

/// Looking a key up among members with one more at the end.
proof fn lemma_member_push(
    members: Seq<(Seq<char>, JsonValue)>,
    last: (Seq<char>, JsonValue),
    key: Seq<char>,
)
    ensures
        member(members.push(last), key) == match member(members, key) {
            Some(v) => Some(v),
            None => if last.0 == key {
                Some(last.1)
            } else {
                None
            },
        },
    decreases members.len(),
{
    if members.len() == 0 {
        assert(members.push(last).drop_first() =~= members);
    } else {
        assert(members.push(last).drop_first() =~= members.drop_first().push(last));
        if members[0].0 != key {
            lemma_member_push(members.drop_first(), last, key);
        }
    }
}

/// Where the keys of the schema differ from each other, the member under
/// the key of a field among the members of the first fields is what the
/// field was written as, if it is one of them, and missing otherwise.
proof fn lemma_member_of_written(
    entity: Seq<Null<ScalarValue>>,
    schema: &Schema,
    upto: int,
    index: int,
)
    requires
        0 <= upto <= described_len(entity, schema),
        0 <= index < schema.fields@.len(),
        forall|i: int, j: int|
            0 <= i < j < schema.fields@.len() ==> key_at(schema, i) != key_at(schema, j),
    ensures
        member(members_upto(entity, schema, upto), key_at(schema, index)) == if index < upto {
            written(entity[index])
        } else {
            None
        },
    decreases upto,
{
    if upto > 0 {
        lemma_member_of_written(entity, schema, upto - 1, index);
        let front = members_upto(entity, schema, upto - 1);
        match written(entity[upto - 1]) {
            Some(v) => {
                lemma_member_push(front, (key_at(schema, upto - 1), v), key_at(schema, index));
            },
            None => {},
        }
    }
}

/// Whether each value of the entity is of the kind that the schema gives
/// its field.
pub open spec fn well_kinded(entity: Seq<Null<ScalarValue>>, schema: &Schema) -> bool {
    forall|i: int|
        0 <= i < entity.len() ==> match #[trigger] entity[i] {
            Null::Value(ScalarValue::Text(_)) => kind_at(schema, i) == Kind::Text,
            Null::Value(ScalarValue::Int(_)) => kind_at(schema, i) == Kind::Int,
            _ => true,
        }
}

/// Reading what was written gives the entity back: for an entity with the
/// fields of its schema, each value of its field's kind, under keys that
/// differ from each other.
pub proof fn lemma_wire_round_trip(entity: Seq<Null<ScalarValue>>, schema: &Schema)
    requires
        entity.len() == schema.fields@.len(),
        well_kinded(entity, schema),
        forall|i: int, j: int|
            0 <= i < j < schema.fields@.len() ==> key_at(schema, i) != key_at(schema, j),
    ensures
        json_entity(entity_json(entity, schema), schema) == Some(entity),
{
    let json = entity_json(entity, schema);
    let n = entity.len() as int;
    assert forall|i: int| 0 <= i < n implies read_at(json, schema, i) == Some(entity[i]) by {
        lemma_member_of_written(entity, schema, n, i);
        match entity[i] {
            Null::Value(ScalarValue::Int(v)) => {
                lemma_numeral_of_decimal(v as int);
            },
            _ => {},
        }
    }
    assert(readable(json, schema));
    assert(json_entity(json, schema)->Some_0 =~= entity);
}

/// An undefined field leaves no member on the wire, and a field that is
/// read from the wire without a member is undefined.
pub proof fn lemma_undefined_is_absent(kind: Kind)
    ensures
        written(Null::Undefined) is None,
        written(Null::Null) == Some(JsonValue::Null),
        read_member(None, kind) == Some(Null::<ScalarValue>::Undefined),
        read_member(Some(JsonValue::Null), kind) == Some(Null::<ScalarValue>::Null),
{
}

impl Scalar {
    /// The JSON form of the value.
    pub fn to_json(&self) -> (r: Json)
        ensures
            r@ == scalar_json(self@),
    {
        match self {
            Scalar::Text(t) => Json::Text(t.clone()),
            Scalar::Int(n) => Json::Number(decimal(*n)),
        }
    }

    /// The value of a kind that a JSON value stands for.
    pub fn from_json(value: &Json, kind: Kind) -> (r: Option<Scalar>)
        ensures
            match r {
                Some(s) => json_scalar(value@, kind) == Some(s@),
                None => json_scalar(value@, kind) is None,
            },
    {
        match kind {
            Kind::Text => match value {
                Json::Text(t) => Some(Scalar::Text(t.clone())),
                _ => None,
            },
            Kind::Int => match value {
                Json::Number(t) => match parse_i64(t.as_str()) {
                    Some(n) => Some(Scalar::Int(n)),
                    None => None,
                },
                _ => None,
            },
        }
    }
}

impl Entity {
    /// The wire form of the entity: an object with a member for each field
    /// that is not undefined, under the field's name in camel case.
    pub fn to_json(&self, schema: &Schema) -> (r: Json)
        ensures
            r@ == entity_json(self@, schema),
    {
        let n = if self.fields.len() <= schema.fields.len() {
            self.fields.len()
        } else {
            schema.fields.len()
        };
        let mut out: Vec<(String, Json)> = Vec::new();
        let mut i: usize = 0;
        while i < n
            invariant
                i <= n,
                n == described_len(self@, schema),
                out@.len() == members_upto(self@, schema, i as int).len(),
                forall|k: int|
                    0 <= k < out@.len() ==> (#[trigger] out@[k]).0@ == members_upto(
                        self@,
                        schema,
                        i as int,
                    )[k].0 && out@[k].1@ == members_upto(self@, schema, i as int)[k].1,
            decreases n - i,
        {
            match &self.fields[i] {
                Null::Undefined => {},
                Null::Null => {
                    out.push((camel_case(schema.fields[i].name.as_str()), Json::Null));
                },
                Null::Value(v) => {
                    out.push((camel_case(schema.fields[i].name.as_str()), v.to_json()));
                },
            }
            i += 1;
        }
        let r = Json::Object(out);
        proof {
            crate::json::lemma_view_items(r);
            assert(r@->Object_0 =~= members_upto(self@, schema, n as int));
        }
        r
    }

    /// The entity that a JSON value is read as: each field from the member
    /// under its name in camel case, undefined where there is none. `None`
    /// where the value is no object, or a member is neither null nor of its
    /// field's kind.
    pub fn from_json(schema: &Schema, json: &Json) -> (r: Option<Entity>)
        ensures
            match r {
                Some(entity) => json_entity(json@, schema) == Some(entity@),
                None => json_entity(json@, schema) is None,
            },
    {
        match json {
            Json::Object(_) => {},
            _ => {
                proof {
                    crate::json::lemma_view_items(*json);
                }
                return None;
            },
        }
        proof {
            crate::json::lemma_view_items(*json);
        }
        let mut fields: Vec<Null<Scalar>> = Vec::new();
        let mut i: usize = 0;
        while i < schema.fields.len()
            invariant
                i <= schema.fields.len(),
                json@ is Object,
                fields@.len() == i,
                forall|k: int|
                    0 <= k < i ==> read_at(json@, schema, k) == Some(
                        crate::entity::field_value(#[trigger] fields@[k]),
                    ),
            decreases schema.fields.len() - i,
        {
            let key = camel_case(schema.fields[i].name.as_str());
            let kind = schema.kind(i);
            match json.get(key.as_str()) {
                None => {
                    fields.push(Null::Undefined);
                },
                Some(Json::Null) => {
                    fields.push(Null::Null);
                },
                Some(value) => {
                    match Scalar::from_json(value, kind) {
                        Some(s) => {
                            fields.push(Null::Value(s));
                        },
                        None => {
                            assert(read_at(json@, schema, i as int) is None);
                            return None;
                        },
                    }
                },
            }
            i += 1;
        }
        let entity = Entity { fields };
        proof {
            assert forall|k: int| 0 <= k < schema.fields@.len() implies (#[trigger] read_at(
                json@,
                schema,
                k,
            )) is Some by {
                let _ = entity.fields@[k];
            }
            assert(entity@ =~= json_entity(json@, schema)->Some_0);
        }
        Some(entity)
    }
}

} // verus!
