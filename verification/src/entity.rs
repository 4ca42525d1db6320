//! Entities: records of tri-state fields, in the order of their schema.

use crate::null::Null;
use vstd::prelude::*;

verus! {

/// The value of a field: a text or an integer.
#[derive(Debug, PartialEq, Eq)]
pub enum Scalar {
    Text(String),
    Int(i64),
}

/// The mathematical value of a [`Scalar`].
pub enum ScalarValue {
    Text(Seq<char>),
    Int(i64),
}

impl View for Scalar {
    type V = ScalarValue;

    open spec fn view(&self) -> ScalarValue {
        match self {
            Scalar::Text(t) => ScalarValue::Text(t@),
            Scalar::Int(n) => ScalarValue::Int(*n),
        }
    }
}

impl Clone for Scalar {
    fn clone(&self) -> (r: Scalar)
        ensures
            r@ == self@,
    {
        match self {
            Scalar::Text(t) => Scalar::Text(t.clone()),
            Scalar::Int(n) => Scalar::Int(*n),
        }
    }
}

/// Whether a value is the neutral one of its kind: the empty text, or zero.
pub open spec fn blank(value: ScalarValue) -> bool {
    match value {
        ScalarValue::Text(t) => t.len() == 0,
        ScalarValue::Int(n) => n == 0,
    }
}

impl Scalar {
    /// Whether the value is the empty text or zero.
    pub fn is_empty(&self) -> (r: bool)
        ensures
            r == blank(self@),
    {
        match self {
            Scalar::Text(t) => t.as_str().is_empty(),
            Scalar::Int(n) => *n == 0,
        }
    }
}

/// The mathematical value of a field.
pub open spec fn field_value(field: Null<Scalar>) -> Null<ScalarValue> {
    match field {
        Null::Undefined => Null::Undefined,
        Null::Null => Null::Null,
        Null::Value(v) => Null::Value(v@),
    }
}

/// A copy of a field.
pub fn copy_field(field: &Null<Scalar>) -> (r: Null<Scalar>)
    ensures
        field_value(r) == field_value(*field),
{
    match field {
        Null::Undefined => Null::Undefined,
        Null::Null => Null::Null,
        Null::Value(v) => Null::Value(v.clone()),
    }
}

/// A record of fields. A field is known by its position, which is its
/// position in the schema of the entity.
#[derive(Debug, PartialEq, Eq)]
pub struct Entity {
    pub fields: Vec<Null<Scalar>>,
}

impl View for Entity {
    type V = Seq<Null<ScalarValue>>;

    open spec fn view(&self) -> Seq<Null<ScalarValue>> {
        self.fields@.map_values(|f: Null<Scalar>| field_value(f))
    }
}

/// The entity of `len` fields that nobody has supplied yet.
pub open spec fn blank_entity(len: nat) -> Seq<Null<ScalarValue>> {
    Seq::new(len, |i: int| Null::<ScalarValue>::Undefined)
}

/// Whether no field of the entity was supplied: it equals the default
/// entity of its length.
pub open spec fn all_undefined(entity: Seq<Null<ScalarValue>>) -> bool {
    forall|i: int| 0 <= i < entity.len() ==> (#[trigger] entity[i]) is Undefined
}

/// Whether no field of the entity is undefined, as after a storage read.
pub open spec fn all_defined(entity: Seq<Null<ScalarValue>>) -> bool {
    forall|i: int| 0 <= i < entity.len() ==> !((#[trigger] entity[i]) is Undefined)
}

/// The entity with every null field made undefined.
pub open spec fn without_nulls(entity: Seq<Null<ScalarValue>>) -> Seq<Null<ScalarValue>> {
    entity.map_values(
        |f: Null<ScalarValue>|
            if f is Null {
                Null::Undefined
            } else {
                f
            },
    )
}

/// The entity with the fields that `keep` marks, and every other field
/// undefined.
pub open spec fn projected(entity: Seq<Null<ScalarValue>>, keep: Seq<bool>) -> Seq<
    Null<ScalarValue>,
> {
    Seq::new(
        entity.len(),
        |i: int|
            if i < keep.len() && keep[i] {
                entity[i]
            } else {
                Null::Undefined
            },
    )
}

impl Clone for Entity {
    fn clone(&self) -> (r: Entity)
        ensures
            r@ == self@,
    {
        let mut fields: Vec<Null<Scalar>> = Vec::new();
        let mut i: usize = 0;
        while i < self.fields.len()
            invariant
                i <= self.fields.len(),
                fields@.len() == i,
                forall|k: int|
                    0 <= k < i ==> field_value(#[trigger] fields@[k]) == field_value(
                        self.fields@[k],
                    ),
            decreases self.fields.len() - i,
        {
            fields.push(copy_field(&self.fields[i]));
            i += 1;
        }
        let r = Entity { fields };
        assert(r@ =~= self@);
        r
    }
}

impl Entity {
    /// The default entity of `len` fields: every field undefined.
    pub fn new(len: usize) -> (r: Entity)
        ensures
            r@ == blank_entity(len as nat),
            all_undefined(r@),
    {
        let mut fields: Vec<Null<Scalar>> = Vec::new();
        let mut i: usize = 0;
        while i < len
            invariant
                i <= len,
                fields@.len() == i,
                forall|k: int| 0 <= k < i ==> (#[trigger] fields@[k]) is Undefined,
            decreases len - i,
        {
            fields.push(Null::Undefined);
            i += 1;
        }
        let r = Entity { fields };
        assert(r@ =~= blank_entity(len as nat));
        r
    }

    /// The number of fields.
    pub fn len(&self) -> (r: usize)
        ensures
            r == self@.len(),
    {
        self.fields.len()
    }

    /// Whether the entity equals the default entity: no field was supplied.
    pub fn is_empty(&self) -> (r: bool)
        ensures
            r == all_undefined(self@),
            r == (self@ == blank_entity(self@.len())),
    {
        let mut i: usize = 0;
        while i < self.fields.len()
            invariant
                i <= self.fields.len(),
                forall|k: int| 0 <= k < i ==> (#[trigger] self@[k]) is Undefined,
            decreases self.fields.len() - i,
        {
            if !self.fields[i].is_undefined() {
                assert(!(self@[i as int] is Undefined));
                assert(blank_entity(self@.len())[i as int] is Undefined);
                return false;
            }
            i += 1;
        }
        assert(self@ =~= blank_entity(self@.len()));
        true
    }

    /// The value of field `index`, where the entity has that field and it
    /// holds one.
    pub fn get(&self, index: usize) -> (r: Option<Scalar>)
        ensures
            match r {
                Some(v) => index < self@.len() && self@[index as int] == Null::Value(v@),
                None => index >= self@.len() || !(self@[index as int] is Value),
            },
    {
        if index >= self.fields.len() {
            return None;
        }
        match &self.fields[index] {
            Null::Value(v) => Some(v.clone()),
            _ => None,
        }
    }

    /// The entity with field `index` replaced by `field`; the entity itself
    /// where it has no such field.
    pub fn with_field(self, index: usize, field: Null<Scalar>) -> (r: Entity)
        ensures
            index < self@.len() ==> r@ == self@.update(index as int, field_value(field)),
            index >= self@.len() ==> r@ == self@,
    {
        if index >= self.fields.len() {
            return self;
        }
        let mut fields = self.fields;
        fields.set(index, field);
        let r = Entity { fields };
        assert(r@ =~= self@.update(index as int, field_value(field)));
        r
    }

    /// The entity with field `index` holding `value`; the entity itself
    /// where it has no such field. An entity that took a value is not
    /// empty.
    pub fn set(self, index: usize, value: Scalar) -> (r: Entity)
        ensures
            index < self@.len() ==> r@ == self@.update(index as int, Null::Value(value@))
                && !all_undefined(r@),
            index >= self@.len() ==> r@ == self@,
    {
        let r = self.with_field(index, Null::Value(value));
        proof {
            if index < self@.len() {
                assert(r@[index as int] is Value);
            }
        }
        r
    }

    /// The entity with field `index` holding `value` if that field held no
    /// value, or an empty one, before; the entity itself otherwise. This is
    /// how a new row gets its identifier, and an old row keeps its own.
    pub fn set_insert(self, index: usize, value: Scalar) -> (r: Entity)
        ensures
            r@ == if index < self@.len() && !holds(self@[index as int]) {
                self@.update(index as int, Null::Value(value@))
            } else {
                self@
            },
    {
        if index >= self.fields.len() {
            return self;
        }
        let held = match &self.fields[index] {
            Null::Value(v) => !v.is_empty(),
            _ => false,
        };
        if held {
            self
        } else {
            self.set(index, value)
        }
    }

    /// The entity with field `index` undefined; the entity itself where it
    /// has no such field.
    pub fn field_to_undefined(self, index: usize) -> (r: Entity)
        ensures
            index < self@.len() ==> r@ == self@.update(index as int, Null::Undefined),
            index >= self@.len() ==> r@ == self@,
    {
        self.with_field(index, Null::Undefined)
    }

    /// The view of the entity that shows only the fields that `keep` marks:
    /// every other field is undefined in it, and so left out on the wire.
    pub fn project(&self, keep: &Vec<bool>) -> (r: Entity)
        ensures
            r@ == projected(self@, keep@),
    {
        let mut fields: Vec<Null<Scalar>> = Vec::new();
        let mut i: usize = 0;
        while i < self.fields.len()
            invariant
                i <= self.fields.len(),
                fields@.len() == i,
                forall|k: int|
                    0 <= k < i ==> field_value(#[trigger] fields@[k]) == projected(
                        self@,
                        keep@,
                    )[k],
            decreases self.fields.len() - i,
        {
            if i < keep.len() && keep[i] {
                fields.push(copy_field(&self.fields[i]));
            } else {
                fields.push(Null::Undefined);
            }
            i += 1;
        }
        let r = Entity { fields };
        assert(r@ =~= projected(self@, keep@));
        r
    }

    /// Reads a record of field errors as the outcome of a validation: passed
    /// where no field has an error, failed with the record otherwise.
    pub fn validate(self) -> (r: Result<(), Entity>)
        ensures
            match r {
                Ok(_) => all_undefined(self@),
                Err(errors) => !all_undefined(self@) && errors == self,
            },
    {
        if self.is_empty() {
            Ok(())
        } else {
            Err(self)
        }
    }

    /// The entity with every null field made undefined, so that the wire
    /// form leaves those keys out.
    pub fn nulls_to_undefined(self) -> (r: Entity)
        ensures
            r@ == without_nulls(self@),
    {
        let mut fields = self.fields;
        let ghost before = fields@;
        let mut i: usize = 0;
        while i < fields.len()
            invariant
                i <= fields.len(),
                fields@.len() == before.len(),
                forall|k: int|
                    0 <= k < i ==> field_value(#[trigger] fields@[k]) == without_nulls(
                        self@,
                    )[k],
                forall|k: int| i <= k < fields@.len() ==> (#[trigger] fields@[k]) == before[k],
                before == self.fields@,
            decreases fields.len() - i,
        {
            if fields[i].is_null() {
                fields.set(i, Null::Undefined);
            }
            i += 1;
        }
        let r = Entity { fields };
        assert(r@ =~= without_nulls(self@));
        r
    }
}

/// Whether a field holds a value other than the empty text or zero.
pub open spec fn holds(field: Null<ScalarValue>) -> bool {
    field matches Null::Value(v) && !blank(v)
}

/// A default entity is empty, and an entity with a field that holds a value
/// is not.
pub proof fn lemma_empty_until_set(entity: Seq<Null<ScalarValue>>, index: int, value: ScalarValue)
    requires
        0 <= index < entity.len(),
    ensures
        all_undefined(blank_entity(entity.len())),
        !all_undefined(entity.update(index, Null::Value(value))),
{
    assert(entity.update(index, Null::Value(value))[index] is Value);
}

} // verus!
