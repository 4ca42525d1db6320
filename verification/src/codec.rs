//! The field codec: the ciphered fields of an entity turned into
//! ciphertext before they are stored or sent, and back after they are read.
//!
//! The cipher itself is the caller's: a function from a value to its
//! ciphertext or plaintext, which may fail. What is fixed here is which
//! fields it is applied to, and that a call changes every such field or
//! none.

use crate::entity::{blank, copy_field, holds, Entity, Scalar, ScalarValue};
use crate::null::Null;
use crate::schema::{ciphered_at, marks_of, Schema};
use vstd::prelude::*;

verus! {

/// The failure of the cipher on one field.
#[derive(Debug, PartialEq, Eq)]
pub struct CryptoError {
    /// The position of the field.
    pub field: usize,
    /// What the cipher reported.
    pub reason: String,
}

/// Whether the codec applies the cipher to field `index`: the field is
/// ciphered and holds a value other than the empty text or zero.
pub open spec fn pending(entity: Seq<Null<ScalarValue>>, schema: &Schema, index: int) -> bool {
    0 <= index < entity.len() && ciphered_at(schema, index) && holds(entity[index])
}

/// Whether `after` is `before` with each field that the codec applies the
/// cipher to replaced by what the cipher made of it, and every other field
/// as it was.
pub open spec fn transformed_by<F: Fn(&Scalar) -> Result<Scalar, String>>(
    before: &Entity,
    schema: &Schema,
    cipher: &F,
    after: &Entity,
) -> bool {
    &&& after@.len() == before@.len()
    &&& forall|i: int|
        0 <= i < before@.len() ==> if pending(before@, schema, i) {
            (#[trigger] after.fields@[i]) is Value && call_ensures(
                *cipher,
                (&before.fields@[i]->Value_0,),
                Ok::<Scalar, String>(after.fields@[i]->Value_0),
            )
        } else {
            after@[i] == before@[i]
        }
}

/// Whether the cipher failed with `error` on a field of `before` that the
/// codec applies it to, after it had succeeded on every such field before
/// that one.
pub open spec fn failed_by<F: Fn(&Scalar) -> Result<Scalar, String>>(
    before: &Entity,
    schema: &Schema,
    cipher: &F,
    error: CryptoError,
) -> bool {
    &&& pending(before@, schema, error.field as int)
    &&& call_ensures(
        *cipher,
        (&before.fields@[error.field as int]->Value_0,),
        Err::<Scalar, String>(error.reason),
    )
    &&& forall|i: int|
        0 <= i < error.field && pending(before@, schema, i) ==> exists|made: Scalar|
            call_ensures(
                *cipher,
                (&(#[trigger] before.fields@[i])->Value_0,),
                Ok::<Scalar, String>(made),
            )
}

/// The entity with `f` applied to each field marked in `marks` that holds a
/// value other than the empty text or zero, and every other field as it
/// was.
pub open spec fn sealed(
    entity: Seq<Null<ScalarValue>>,
    marks: Seq<bool>,
    f: spec_fn(ScalarValue) -> ScalarValue,
) -> Seq<Null<ScalarValue>> {
    Seq::new(
        entity.len(),
        |i: int|
            if i < marks.len() && marks[i] && holds(entity[i]) {
                Null::Value(f(entity[i]->Value_0))
            } else {
                entity[i]
            },
    )
}

/// Applies `cipher` to each ciphered field of `entity` that holds a value
/// other than the empty text or zero, in order. Undefined, null and empty
/// fields, and fields that are not ciphered, pass through. The first failure
/// of the cipher fails the call, and nothing of the entity is returned.
pub fn transform<F: Fn(&Scalar) -> Result<Scalar, String>>(
    entity: &Entity,
    schema: &Schema,
    cipher: &F,
) -> (r: Result<Entity, CryptoError>)
    requires
        forall|v: &Scalar| !blank(v@) ==> call_requires(*cipher, (v,)),
    ensures
        match r {
            Ok(after) => transformed_by(entity, schema, cipher, &after),
            Err(error) => failed_by(entity, schema, cipher, error),
        },
{
    let mut fields: Vec<Null<Scalar>> = Vec::new();
    let mut i: usize = 0;
    while i < entity.fields.len()
        invariant
            i <= entity.fields.len(),
            fields@.len() == i,
            forall|v: &Scalar| !blank(v@) ==> call_requires(*cipher, (v,)),
            forall|k: int|
                0 <= k < i ==> if pending(entity@, schema, k) {
                    (#[trigger] fields@[k]) is Value && call_ensures(
                        *cipher,
                        (&entity.fields@[k]->Value_0,),
                        Ok::<Scalar, String>(fields@[k]->Value_0),
                    )
                } else {
                    crate::entity::field_value(fields@[k]) == entity@[k]
                },
        decreases entity.fields.len() - i,
    {
        let field = &entity.fields[i];
        let due = schema.is_ciphered(i) && match field {
            Null::Value(v) => !v.is_empty(),
            _ => false,
        };
        assert(due == pending(entity@, schema, i as int));
        if due {
            match field {
                Null::Value(v) => {
                    match cipher(v) {
                        Ok(made) => {
                            fields.push(Null::Value(made));
                        },
                        Err(reason) => {
                            let error = CryptoError { field: i, reason };
                            proof {
                                assert forall|k: int|
                                    0 <= k < i && pending(entity@, schema, k) implies exists|
                                    made: Scalar,
                                |
                                    call_ensures(
                                        *cipher,
                                        (&(#[trigger] entity.fields@[k])->Value_0,),
                                        Ok::<Scalar, String>(made),
                                    ) by {
                                    assert(fields@[k] is Value);
                                    assert(call_ensures(
                                        *cipher,
                                        (&entity.fields@[k]->Value_0,),
                                        Ok::<Scalar, String>(fields@[k]->Value_0),
                                    ));
                                }
                            }
                            return Err(error);
                        },
                    }
                },
                _ => {
                    fields.push(copy_field(field));
                },
            }
        } else {
            fields.push(copy_field(field));
        }
        i += 1;
    }
    let after = Entity { fields };
    assert(transformed_by(entity, schema, cipher, &after));
    Ok(after)
}

/// The entity with its ciphered fields taken from `form`, as far as `form`
/// has them, and its other fields as they were.
pub open spec fn mutated(
    entity: Seq<Null<ScalarValue>>,
    marks: Seq<bool>,
    form: Seq<Null<ScalarValue>>,
) -> Seq<Null<ScalarValue>> {
    Seq::new(
        entity.len(),
        |i: int|
            if i < marks.len() && marks[i] && i < form.len() {
                form[i]
            } else {
                entity[i]
            },
    )
}

impl Entity {
    /// Takes the ciphered fields of `form` into the entity, and leaves its
    /// other fields as they were.
    pub fn mutate(&mut self, schema: &Schema, form: &Entity)
        ensures
            final(self)@ == mutated(old(self)@, marks_of(schema), form@),
    {
        let mut i: usize = 0;
        while i < self.fields.len()
            invariant
                i <= self.fields.len(),
                self.fields@.len() == old(self).fields@.len(),
                forall|k: int|
                    0 <= k < i ==> crate::entity::field_value(#[trigger] self.fields@[k])
                        == mutated(old(self)@, marks_of(schema), form@)[k],
                forall|k: int|
                    i <= k < self.fields@.len() ==> (#[trigger] self.fields@[k]) == old(
                        self,
                    ).fields@[k],
            decreases self.fields.len() - i,
        {
            if schema.is_ciphered(i) && i < form.fields.len() {
                self.fields.set(i, copy_field(&form.fields[i]));
            }
            i += 1;
        }
        assert(self@ =~= mutated(old(self)@, marks_of(schema), form@));
    }

    /// The entity with its ciphered fields encrypted by `cipher`; the
    /// cipher's failure where it fails on one of them.
    pub fn encrypt_with<F: Fn(&Scalar) -> Result<Scalar, String>>(
        &self,
        schema: &Schema,
        cipher: &F,
    ) -> (r: Result<Entity, CryptoError>)
        requires
            forall|v: &Scalar| !blank(v@) ==> call_requires(*cipher, (v,)),
        ensures
            match r {
                Ok(after) => transformed_by(self, schema, cipher, &after),
                Err(error) => failed_by(self, schema, cipher, error),
            },
    {
        transform(self, schema, cipher)
    }

    /// The entity with its ciphered fields decrypted by `cipher`; the
    /// cipher's failure where it fails on one of them.
    pub fn decrypt_with<F: Fn(&Scalar) -> Result<Scalar, String>>(
        &self,
        schema: &Schema,
        cipher: &F,
    ) -> (r: Result<Entity, CryptoError>)
        requires
            forall|v: &Scalar| !blank(v@) ==> call_requires(*cipher, (v,)),
        ensures
            match r {
                Ok(after) => transformed_by(self, schema, cipher, &after),
                Err(error) => failed_by(self, schema, cipher, error),
            },
    {
        transform(self, schema, cipher)
    }
}

/// Where the cipher computes `f`, the entity that the codec returns is the
/// sealed one.
pub proof fn lemma_transformed_is_sealed<F: Fn(&Scalar) -> Result<Scalar, String>>(
    before: &Entity,
    schema: &Schema,
    cipher: &F,
    after: &Entity,
    f: spec_fn(ScalarValue) -> ScalarValue,
)
    requires
        transformed_by(before, schema, cipher, after),
        forall|input: &Scalar, made: Scalar|
            call_ensures(*cipher, (input,), Ok::<Scalar, String>(made)) ==> made@ == f(input@),
    ensures
        after@ == sealed(before@, marks_of(schema), f),
{
    let goal = sealed(before@, marks_of(schema), f);
    assert forall|i: int| 0 <= i < before@.len() implies after@[i] == goal[i] by {
        if pending(before@, schema, i) {
            assert(after.fields@[i] is Value);
            let input = &before.fields@[i]->Value_0;
            let made = after.fields@[i]->Value_0;
            assert(call_ensures(*cipher, (input,), Ok::<Scalar, String>(made)));
        }
    }
    assert(after@ =~= goal);
}

/// Sealing leaves alone every field that is undefined, null, empty or not
/// marked.
pub proof fn lemma_sealed_passes(
    entity: Seq<Null<ScalarValue>>,
    marks: Seq<bool>,
    f: spec_fn(ScalarValue) -> ScalarValue,
    index: int,
)
    requires
        0 <= index < entity.len(),
        !(index < marks.len() && marks[index]) || !holds(entity[index]),
    ensures
        sealed(entity, marks, f)[index] == entity[index],
        entity[index] is Undefined ==> sealed(entity, marks, f)[index] is Undefined,
{
}

/// Decrypting what was encrypted gives the entity back, for a cipher whose
/// decryption undoes its encryption and whose ciphertext of a value that
/// is not empty is not empty.
pub proof fn lemma_round_trip(
    entity: Seq<Null<ScalarValue>>,
    marks: Seq<bool>,
    encrypt: spec_fn(ScalarValue) -> ScalarValue,
    decrypt: spec_fn(ScalarValue) -> ScalarValue,
)
    requires
        forall|v: ScalarValue| !blank(v) ==> !blank(#[trigger] encrypt(v)) && decrypt(encrypt(v)) == v,
    ensures
        sealed(sealed(entity, marks, encrypt), marks, decrypt) == entity,
{
    assert(sealed(sealed(entity, marks, encrypt), marks, decrypt) =~= entity);
}

} // verus!
