//! The schema of an entity: for each field, in order, its name, the kind of
//! its value, whether it is stored as ciphertext, and how a form value is
//! tidied before it is taken.

use vstd::prelude::*;

verus! {

/// The kind of value that a field holds.
#[derive(Debug, Clone, Copy, PartialEq, Eq, Structural)]
pub enum Kind {
    Text,
    Int,
}

/// How the text of a form field is tidied.
#[derive(Debug, Clone, Copy, PartialEq, Eq, Structural)]
pub enum Sanitize {
    /// The text is taken as it is.
    Keep,
    /// Whitespace at both ends is removed.
    Trim,
    /// Whitespace at both ends and slashes at the end are removed.
    TrimSlash,
    /// Whitespace at both ends is removed and the text is lowercased.
    Lowercase,
    /// The text is written as a name: each word in title case, suffixes
    /// and Roman numerals in their usual form.
    NormalizeName,
}

/// The description of one field.
#[derive(Debug, PartialEq, Eq)]
pub struct FieldSpec {
    pub name: String,
    pub kind: Kind,
    pub ciphered: bool,
    pub sanitize: Sanitize,
}

/// The description of an entity: its name and its fields, in order.
#[derive(Debug, PartialEq, Eq)]
pub struct Schema {
    pub entity: String,
    pub fields: Vec<FieldSpec>,
}

/// Whether field `index` is stored as ciphertext. A field that the schema
/// does not describe is not.
pub open spec fn ciphered_at(schema: &Schema, index: int) -> bool {
    0 <= index < schema.fields@.len() && schema.fields@[index].ciphered
}

/// The kind of field `index`. A field that the schema does not describe is
/// a text.
pub open spec fn kind_at(schema: &Schema, index: int) -> Kind {
    if 0 <= index < schema.fields@.len() {
        schema.fields@[index].kind
    } else {
        Kind::Text
    }
}

/// For each field of the schema, whether it is stored as ciphertext.
pub open spec fn marks_of(schema: &Schema) -> Seq<bool> {
    schema.fields@.map_values(|f: FieldSpec| f.ciphered)
}

impl Schema {
    /// The number of fields.
    pub fn len(&self) -> (r: usize)
        ensures
            r == self.fields@.len(),
    {
        self.fields.len()
    }

    /// Whether field `index` is stored as ciphertext.
    pub fn is_ciphered(&self, index: usize) -> (r: bool)
        ensures
            r == ciphered_at(self, index as int),
    {
        index < self.fields.len() && self.fields[index].ciphered
    }

    /// The kind of field `index`.
    pub fn kind(&self, index: usize) -> (r: Kind)
        ensures
            r == kind_at(self, index as int),
    {
        if index < self.fields.len() {
            self.fields[index].kind
        } else {
            Kind::Text
        }
    }

    /// The position of the field called `name`, where there is one: that
    /// of the first such field.
    pub fn position(&self, name: &str) -> (r: Option<usize>)
        ensures
            match r {
                Some(i) => i < self.fields@.len() && self.fields@[i as int].name@ == name@
                    && forall|k: int| 0 <= k < i ==> self.fields@[k].name@ != name@,
                None => forall|k: int|
                    0 <= k < self.fields@.len() ==> self.fields@[k].name@ != name@,
            },
    {
        let wanted = String::from_str(name);
        let mut i: usize = 0;
        while i < self.fields.len()
            invariant
                i <= self.fields.len(),
                wanted@ == name@,
                forall|k: int| 0 <= k < i ==> self.fields@[k].name@ != name@,
            decreases self.fields.len() - i,
        {
            if self.fields[i].name == wanted {
                return Some(i);
            }
            i += 1;
        }
        None
    }
}

} // verus!
