//! The views of an entity that leave and enter the system: what a response
//! or a form shows of it, and what is taken from a form.
//!
//! Only ciphered fields change between the views. A response or a form
//! shows the typed value of such a field; the entity holds what the cipher
//! works on.

use crate::codec::{failed_by, transformed_by, CryptoError};
use crate::entity::{blank, Entity, Scalar, ScalarValue};
use crate::null::Null;
use crate::number::{decimal, numeral_i32, parse_i32, signed_decimal};
use crate::schema::{ciphered_at, kind_at, Kind, Schema};
use vstd::prelude::*;

verus! {

/// A value read as an `i32`: the integer itself or the one that the text
/// writes, and 0 where there is none in that range.
pub open spec fn as_i32(value: ScalarValue) -> i32 {
    match value {
        ScalarValue::Int(n) => if i32::MIN <= n <= i32::MAX {
            n as i32
        } else {
            0
        },
        ScalarValue::Text(t) => match numeral_i32(t) {
            Some(n) => n,
            None => 0,
        },
    }
}

/// A value read as a text: the text itself, or the numeral of the integer.
pub open spec fn as_text(value: ScalarValue) -> Seq<char> {
    match value {
        ScalarValue::Text(t) => t,
        ScalarValue::Int(n) => signed_decimal(n as int),
    }
}

/// What a response or a form shows of a ciphered field of a kind: an
/// integer as an integer, 0 where it cannot be read; a text as a text, and
/// not at all where it is empty. An undefined or null field is shown as it
/// is.
pub open spec fn shown(field: Null<ScalarValue>, kind: Kind) -> Null<ScalarValue> {
    match field {
        Null::Value(v) => match kind {
            Kind::Int => Null::Value(ScalarValue::Int(as_i32(v) as i64)),
            Kind::Text => if as_text(v).len() == 0 {
                Null::Undefined
            } else {
                Null::Value(ScalarValue::Text(as_text(v)))
            },
        },
        other => other,
    }
}

/// What is taken from a form for a ciphered field of a kind: an integer
/// above 0, a text that is not empty, and nothing, the field left
/// undefined, in any other case.
pub open spec fn taken(field: Null<ScalarValue>, kind: Kind) -> Null<ScalarValue> {
    match field {
        Null::Value(v) => match kind {
            Kind::Int => if as_i32(v) > 0 {
                Null::Value(ScalarValue::Int(as_i32(v) as i64))
            } else {
                Null::Undefined
            },
            Kind::Text => if as_text(v).len() == 0 {
                Null::Undefined
            } else {
                Null::Value(ScalarValue::Text(as_text(v)))
            },
        },
        _ => Null::Undefined,
    }
}

/// The response or form view of an entity.
pub open spec fn shown_entity(entity: Seq<Null<ScalarValue>>, schema: &Schema) -> Seq<
    Null<ScalarValue>,
> {
    Seq::new(
        entity.len(),
        |i: int|
            if ciphered_at(schema, i) {
                shown(entity[i], kind_at(schema, i))
            } else {
                entity[i]
            },
    )
}

/// The entity taken from a form.
pub open spec fn taken_entity(form: Seq<Null<ScalarValue>>, schema: &Schema) -> Seq<
    Null<ScalarValue>,
> {
    Seq::new(
        form.len(),
        |i: int|
            if ciphered_at(schema, i) {
                taken(form[i], kind_at(schema, i))
            } else {
                form[i]
            },
    )
}

/// The text of field `index`: empty where the entity has no such field or
/// it holds no value.
pub open spec fn text_at(entity: Seq<Null<ScalarValue>>, index: int) -> Seq<char> {
    if 0 <= index < entity.len() && entity[index] is Value {
        as_text(entity[index]->Value_0)
    } else {
        Seq::empty()
    }
}

/// The integer of field `index`: 0 where the entity has no such field or it
/// holds no value.
pub open spec fn int_at(entity: Seq<Null<ScalarValue>>, index: int) -> i32 {
    if 0 <= index < entity.len() && entity[index] is Value {
        as_i32(entity[index]->Value_0)
    } else {
        0
    }
}

/// A form that gives an empty text or zero for a ciphered field, or
/// nothing, leaves the field undefined: no ciphertext is made of it.
pub proof fn lemma_taken_of_nothing(kind: Kind)
    ensures
        taken(Null::Value(ScalarValue::Text(Seq::empty())), Kind::Text) is Undefined,
        taken(Null::Value(ScalarValue::Int(0)), Kind::Int) is Undefined,
        taken(Null::Undefined, kind) is Undefined,
        taken(Null::Null, kind) is Undefined,
{
}

impl Scalar {
    /// The value read as an `i32`; 0 where it cannot be.
    pub fn to_i32(&self) -> (r: i32)
        ensures
            r == as_i32(self@),
    {
        match self {
            Scalar::Int(n) => if *n >= -2147483648 && *n <= 2147483647 {
                *n as i32
            } else {
                0
            },
            Scalar::Text(t) => match parse_i32(t.as_str()) {
                Some(n) => n,
                None => 0,
            },
        }
    }

    /// The value read as a text.
    pub fn to_text(&self) -> (r: String)
        ensures
            r@ == as_text(self@),
    {
        match self {
            Scalar::Text(t) => t.clone(),
            Scalar::Int(n) => decimal(*n),
        }
    }
}

fn show(field: &Null<Scalar>, kind: Kind) -> (r: Null<Scalar>)
    ensures
        crate::entity::field_value(r) == shown(crate::entity::field_value(*field), kind),
{
    match field {
        Null::Value(v) => match kind {
            Kind::Int => Null::Value(Scalar::Int(v.to_i32() as i64)),
            Kind::Text => {
                let text = v.to_text();
                if text.as_str().is_empty() {
                    Null::Undefined
                } else {
                    Null::Value(Scalar::Text(text))
                }
            },
        },
        Null::Undefined => Null::Undefined,
        Null::Null => Null::Null,
    }
}

fn take(field: &Null<Scalar>, kind: Kind) -> (r: Null<Scalar>)
    ensures
        crate::entity::field_value(r) == taken(crate::entity::field_value(*field), kind),
{
    match field {
        Null::Value(v) => match kind {
            Kind::Int => {
                let n = v.to_i32();
                if n > 0 {
                    Null::Value(Scalar::Int(n as i64))
                } else {
                    Null::Undefined
                }
            },
            Kind::Text => {
                let text = v.to_text();
                if text.as_str().is_empty() {
                    Null::Undefined
                } else {
                    Null::Value(Scalar::Text(text))
                }
            },
        },
        _ => Null::Undefined,
    }
}

impl Entity {
    /// What a response shows of the entity.
    pub fn to_response(&self, schema: &Schema) -> (r: Entity)
        ensures
            r@ == shown_entity(self@, schema),
    {
        let mut fields: Vec<Null<Scalar>> = Vec::new();
        let mut i: usize = 0;
        while i < self.fields.len()
            invariant
                i <= self.fields.len(),
                fields@.len() == i,
                forall|k: int|
                    0 <= k < i ==> crate::entity::field_value(#[trigger] fields@[k])
                        == shown_entity(self@, schema)[k],
            decreases self.fields.len() - i,
        {
            if schema.is_ciphered(i) {
                fields.push(show(&self.fields[i], schema.kind(i)));
            } else {
                fields.push(crate::entity::copy_field(&self.fields[i]));
            }
            i += 1;
        }
        let r = Entity { fields };
        assert(r@ =~= shown_entity(self@, schema));
        r
    }

    /// What a form shows of the entity: the same as a response.
    pub fn to_form(&self, schema: &Schema) -> (r: Entity)
        ensures
            r@ == shown_entity(self@, schema),
    {
        self.to_response(schema)
    }

    /// The entity taken from a form. A ciphered field that the form left
    /// empty, zero or out is undefined in it.
    pub fn from_form(form: &Entity, schema: &Schema) -> (r: Entity)
        ensures
            r@ == taken_entity(form@, schema),
    {
        let mut fields: Vec<Null<Scalar>> = Vec::new();
        let mut i: usize = 0;
        while i < form.fields.len()
            invariant
                i <= form.fields.len(),
                fields@.len() == i,
                forall|k: int|
                    0 <= k < i ==> crate::entity::field_value(#[trigger] fields@[k])
                        == taken_entity(form@, schema)[k],
            decreases form.fields.len() - i,
        {
            if schema.is_ciphered(i) {
                fields.push(take(&form.fields[i], schema.kind(i)));
            } else {
                fields.push(crate::entity::copy_field(&form.fields[i]));
            }
            i += 1;
        }
        let r = Entity { fields };
        assert(r@ =~= taken_entity(form@, schema));
        r
    }

    /// The text of field `index`; empty where it holds none.
    pub fn text(&self, index: usize) -> (r: String)
        ensures
            r@ == text_at(self@, index as int),
    {
        if index < self.fields.len() {
            match &self.fields[index] {
                Null::Value(v) => v.to_text(),
                _ => String::new(),
            }
        } else {
            String::new()
        }
    }

    /// The integer of field `index`; 0 where it holds none.
    pub fn integer(&self, index: usize) -> (r: i32)
        ensures
            r == int_at(self@, index as int),
    {
        if index < self.fields.len() {
            match &self.fields[index] {
                Null::Value(v) => v.to_i32(),
                _ => 0,
            }
        } else {
            0
        }
    }

    /// The decrypted text of field `index`; empty where decryption fails.
    /// The failure is not reported: where it matters, decrypt the entity and
    /// look at the result.
    pub fn text_with<F: Fn(&Scalar) -> Result<Scalar, String>>(
        &self,
        schema: &Schema,
        index: usize,
        cipher: &F,
    ) -> (r: String)
        requires
            forall|v: &Scalar| !blank(v@) ==> call_requires(*cipher, (v,)),
        ensures
            (exists|after: Entity|
                transformed_by(self, schema, cipher, &after) && r@ == text_at(
                    after@,
                    index as int,
                )) || (exists|error: CryptoError|
                failed_by(self, schema, cipher, error) && r@.len() == 0),
    {
        match self.decrypt_with(schema, cipher) {
            Ok(after) => after.text(index),
            Err(_) => String::new(),
        }
    }

    /// The decrypted integer of field `index`; 0 where decryption fails.
    /// The failure is not reported: where it matters, decrypt the entity and
    /// look at the result.
    pub fn integer_with<F: Fn(&Scalar) -> Result<Scalar, String>>(
        &self,
        schema: &Schema,
        index: usize,
        cipher: &F,
    ) -> (r: i32)
        requires
            forall|v: &Scalar| !blank(v@) ==> call_requires(*cipher, (v,)),
        ensures
            (exists|after: Entity|
                transformed_by(self, schema, cipher, &after) && r == int_at(
                    after@,
                    index as int,
                )) || (exists|error: CryptoError|
                failed_by(self, schema, cipher, error) && r == 0),
    {
        match self.decrypt_with(schema, cipher) {
            Ok(after) => after.integer(index),
            Err(_) => 0,
        }
    }
}

} // verus!
