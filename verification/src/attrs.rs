//! From the declaration of an entity to its schema: the fields as they are
//! declared, the attributes written on them, and what these say of each
//! field.
//!
//! A type is held as its text, as in `Null<String>`.

use crate::schema::{FieldSpec, Kind, Sanitize, Schema};
use crate::text::chars_of;
use vstd::prelude::*;

verus! {

/// The pattern of a type with one wrapper around another type: anything
/// without `<`, then `<`, the inner type, and `>` at the end.
pub const WRAPPER_PATTERN: &'static str = "^[^<]*<(.+)>$";

/// What the first group of a regular expression captures in the leftmost
/// match of a text; `None` where the pattern is no regular expression, the
/// text has no match, or the group takes no part in it.
pub uninterp spec fn regex_group(pattern: Seq<char>, text: Seq<char>) -> Option<Seq<char>>;

/// `regex::Regex::new`, `Regex::captures` and `Captures::get(1)`: the text
/// that the first group of `pattern` captures in `text`, a function of the
/// two alone.
#[verifier::external_body]
fn first_group(pattern: &str, text: &str) -> (r: Option<String>)
    ensures
        match r {
            Some(g) => regex_group(pattern@, text@) == Some(g@),
            None => regex_group(pattern@, text@) is None,
        },
{
    regex::Regex::new(pattern).ok()?.captures(text)?.get(1).map(|m| m.as_str().to_string())
}

/// A field as it is declared: its name and the text of its type.
#[derive(Debug, PartialEq, Eq)]
pub struct Declared {
    pub name: String,
    pub ty: String,
}

/// What the storage attribute of a field says: the type of the column, and
/// the type that the field's getter returns where it is another.
#[derive(Debug, PartialEq, Eq)]
pub struct Attrs {
    pub types: String,
    pub props: Option<String>,
}

/// What the getter attribute of a field says: the type that its getter
/// returns.
#[derive(Debug, PartialEq, Eq)]
pub struct PropsAttrs {
    pub types: String,
}

/// What the cipher attribute of a field says: the type of the plain value,
/// which marks the field as ciphered; the name of the rule that tidies it;
/// and the type of its error.
#[derive(Debug, PartialEq, Eq)]
pub struct CipherAttrs {
    pub types: Option<String>,
    pub sanitize: Option<String>,
    pub errors: Option<String>,
}

impl Attrs {
    /// The type that the field's getter returns: the one named for it, or
    /// the type of the column where none is.
    pub fn getter_type(&self) -> (r: String)
        ensures
            r@ == match self.props {
                Some(p) => p@,
                None => self.types@,
            },
    {
        match &self.props {
            Some(p) => p.clone(),
            None => self.types.clone(),
        }
    }
}

impl PropsAttrs {
    /// The type that the field's getter returns.
    pub fn getter_type(&self) -> (r: String)
        ensures
            r@ == self.types@,
    {
        self.types.clone()
    }
}

/// The text of an optional string.
pub open spec fn optional_text(text: Option<String>) -> Option<Seq<char>> {
    match text {
        Some(t) => Some(t@),
        None => None,
    }
}

/// The text of a type without its spaces.
pub open spec fn type_text(input: Seq<char>) -> Seq<char> {
    input.filter(|c: char| c != ' ')
}

/// The type inside a wrapper; the type itself where it has no wrapper.
pub open spec fn unwrapped(input: Seq<char>) -> Seq<char> {
    match regex_group(WRAPPER_PATTERN@, input) {
        Some(inner) => inner,
        None => input,
    }
}

/// What an attribute record says under an attribute name.
pub open spec fn picked(attrs: CipherAttrs, attribute: Seq<char>) -> Option<Seq<char>> {
    if attribute == "types"@ {
        optional_text(attrs.types)
    } else if attribute == "errors"@ {
        optional_text(attrs.errors)
    } else {
        None
    }
}

/// What the attributes say of the field `key` under an attribute name: the
/// first record of that field that says anything under it.
pub open spec fn attributed(
    attrs: Seq<(String, CipherAttrs)>,
    key: Seq<char>,
    attribute: Seq<char>,
) -> Option<Seq<char>>
    decreases attrs.len(),
{
    if attrs.len() == 0 {
        None
    } else if attrs[0].0@ == key && picked(attrs[0].1, attribute) is Some {
        picked(attrs[0].1, attribute)
    } else {
        attributed(attrs.drop_first(), key, attribute)
    }
}

/// The type under `key` in a list of names and types: that of the first
/// entry with that name.
pub open spec fn typed(map: Seq<(String, String)>, key: Seq<char>) -> Option<Seq<char>>
    decreases map.len(),
{
    if map.len() == 0 {
        None
    } else if map[0].0@ == key {
        Some(map[0].1@)
    } else {
        typed(map.drop_first(), key)
    }
}

/// The rule that a name stands for; `Keep` for any other name.
pub open spec fn rule_named(name: Seq<char>) -> Sanitize {
    if name == "trim"@ {
        Sanitize::Trim
    } else if name == "trim_slash"@ {
        Sanitize::TrimSlash
    } else if name == "lowercase"@ {
        Sanitize::Lowercase
    } else if name == "normalize_name"@ {
        Sanitize::NormalizeName
    } else {
        Sanitize::Keep
    }
}

/// The kind of value that a type holds: an integer for `i32`, a text for
/// any other.
pub open spec fn kind_named(ty: Seq<char>) -> Kind {
    if ty == "i32"@ {
        Kind::Int
    } else {
        Kind::Text
    }
}

/// The text of a type without its spaces.
pub fn type_to_string(input: &str) -> (r: String)
    ensures
        r@ == type_text(input@),
{
    let chars = chars_of(input);
    let mut out = String::new();
    let mut i: usize = 0;
    while i < chars.len()
        invariant
            i <= chars.len(),
            out@ == type_text(chars@.take(i as int)),
        decreases chars.len() - i,
    {
        proof {
            assert(chars@.take(i + 1).drop_last() =~= chars@.take(i as int));
            reveal(Seq::filter);
        }
        if chars[i] != ' ' {
            out.push(chars[i]);
        }
        i += 1;
    }
    assert(chars@.take(chars.len() as int) =~= chars@);
    out
}

/// The type inside a wrapper, as `String` in `Null<String>`; the type
/// itself where it has no wrapper.
pub fn type_from_wrapper(input: &str) -> (r: String)
    ensures
        r@ == unwrapped(input@),
{
    match first_group(WRAPPER_PATTERN, input) {
        Some(inner) => inner,
        None => String::from_str(input),
    }
}

/// The fields of a declaration with the types that their setters take:
/// the declared types without their wrappers.
pub fn setter_fields(fields: &Vec<Declared>) -> (r: Vec<(String, String)>)
    ensures
        r@.len() == fields@.len(),
        forall|k: int|
            0 <= k < r@.len() ==> (#[trigger] r@[k]).0@ == fields@[k].name@ && r@[k].1@
                == unwrapped(type_text(fields@[k].ty@)),
{
    let mut out: Vec<(String, String)> = Vec::new();
    let mut i: usize = 0;
    while i < fields.len()
        invariant
            i <= fields.len(),
            out@.len() == i,
            forall|k: int|
                0 <= k < i ==> (#[trigger] out@[k]).0@ == fields@[k].name@ && out@[k].1@
                    == unwrapped(type_text(fields@[k].ty@)),
        decreases fields.len() - i,
    {
        let text = type_to_string(fields[i].ty.as_str());
        out.push((fields[i].name.clone(), type_from_wrapper(text.as_str())));
        i += 1;
    }
    out
}

/// The type under `key` in a list of names and types.
pub fn get_type(key: &str, map: &Vec<(String, String)>) -> (r: Option<String>)
    ensures
        optional_text(r) == typed(map@, key@),
{
    let wanted = String::from_str(key);
    let mut i: usize = 0;
    assert(map@.skip(0) =~= map@);
    while i < map.len()
        invariant
            i <= map.len(),
            wanted@ == key@,
            typed(map@, key@) == typed(map@.skip(i as int), key@),
        decreases map.len() - i,
    {
        assert(map@.skip(i as int).drop_first() =~= map@.skip(i + 1));
        if map[i].0 == wanted {
            return Some(map[i].1.clone());
        }
        i += 1;
    }
    None
}

fn find_attribute(key: &str, attribute: &str, attrs: &Vec<(String, CipherAttrs)>) -> (r: Option<
    String,
>)
    ensures
        optional_text(r) == attributed(attrs@, key@, attribute@),
{
    let wanted = String::from_str(key);
    let named = String::from_str(attribute);
    let of_types = named == String::from_str("types");
    let of_errors = named == String::from_str("errors");
    let mut i: usize = 0;
    assert(attrs@.skip(0) =~= attrs@);
    while i < attrs.len()
        invariant
            i <= attrs.len(),
            wanted@ == key@,
            of_types == (attribute@ == "types"@),
            of_errors == (attribute@ == "errors"@),
            attributed(attrs@, key@, attribute@) == attributed(
                attrs@.skip(i as int),
                key@,
                attribute@,
            ),
        decreases attrs.len() - i,
    {
        assert(attrs@.skip(i as int).drop_first() =~= attrs@.skip(i + 1));
        if attrs[i].0 == wanted {
            if of_types {
                match &attrs[i].1.types {
                    Some(t) => {
                        return Some(t.clone());
                    },
                    None => {},
                }
            } else if of_errors {
                match &attrs[i].1.errors {
                    Some(t) => {
                        return Some(t.clone());
                    },
                    None => {},
                }
            }
        }
        i += 1;
    }
    None
}

/// The type of the field `key` under an attribute name, `types` or
/// `errors`: the one that the attributes give, or `defaults` without its
/// spaces and its wrapper where they give none.
pub fn get_dynamic_type(
    key: &str,
    attribute: &str,
    defaults: &str,
    attrs: &Vec<(String, CipherAttrs)>,
) -> (r: String)
    ensures
        r@ == match attributed(attrs@, key@, attribute@) {
            Some(t) => t,
            None => unwrapped(type_text(defaults@)),
        },
{
    match find_attribute(key, attribute, attrs) {
        Some(t) => t,
        None => {
            let text = type_to_string(defaults);
            type_from_wrapper(text.as_str())
        },
    }
}

/// Whether the attributes give the field `key` a type under an attribute
/// name, `types` or `errors`.
pub fn is_attributed_type(key: &str, attribute: &str, attrs: &Vec<(String, CipherAttrs)>) -> (r:
    bool)
    ensures
        r == attributed(attrs@, key@, attribute@) is Some,
{
    find_attribute(key, attribute, attrs).is_some()
}

/// The rule that `name` stands for.
pub fn rule_of(name: &str) -> (r: Sanitize)
    ensures
        r == rule_named(name@),
{
    let name = String::from_str(name);
    if name == String::from_str("trim") {
        Sanitize::Trim
    } else if name == String::from_str("trim_slash") {
        Sanitize::TrimSlash
    } else if name == String::from_str("lowercase") {
        Sanitize::Lowercase
    } else if name == String::from_str("normalize_name") {
        Sanitize::NormalizeName
    } else {
        Sanitize::Keep
    }
}

/// The rule of each attribute record, in order, with the name of its
/// field: the rule that the record names, `Keep` where it names none.
pub fn get_sanitize(attrs: &Vec<(String, CipherAttrs)>) -> (r: Vec<(String, Sanitize)>)
    ensures
        r@.len() == attrs@.len(),
        forall|k: int|
            0 <= k < r@.len() ==> (#[trigger] r@[k]).0@ == attrs@[k].0@ && r@[k].1 == (
            match attrs@[k].1.sanitize {
                Some(name) => rule_named(name@),
                None => Sanitize::Keep,
            }),
{
    let mut out: Vec<(String, Sanitize)> = Vec::new();
    let mut i: usize = 0;
    while i < attrs.len()
        invariant
            i <= attrs.len(),
            out@.len() == i,
            forall|k: int|
                0 <= k < i ==> (#[trigger] out@[k]).0@ == attrs@[k].0@ && out@[k].1 == (
                match attrs@[k].1.sanitize {
                    Some(name) => rule_named(name@),
                    None => Sanitize::Keep,
                }),
        decreases attrs.len() - i,
    {
        let rule = match &attrs[i].1.sanitize {
            Some(name) => rule_of(name.as_str()),
            None => Sanitize::Keep,
        };
        out.push((attrs[i].0.clone(), rule));
        i += 1;
    }
    out
}

/// The rule of the field `key`: that of the first attribute record of the
/// field that names one.
pub open spec fn rule_for(attrs: Seq<(String, CipherAttrs)>, key: Seq<char>) -> Sanitize
    decreases attrs.len(),
{
    if attrs.len() == 0 {
        Sanitize::Keep
    } else if attrs[0].0@ == key && attrs[0].1.sanitize is Some {
        rule_named(attrs[0].1.sanitize->Some_0@)
    } else {
        rule_for(attrs.drop_first(), key)
    }
}

fn find_rule(key: &str, attrs: &Vec<(String, CipherAttrs)>) -> (r: Sanitize)
    ensures
        r == rule_for(attrs@, key@),
{
    let wanted = String::from_str(key);
    let mut i: usize = 0;
    assert(attrs@.skip(0) =~= attrs@);
    while i < attrs.len()
        invariant
            i <= attrs.len(),
            wanted@ == key@,
            rule_for(attrs@, key@) == rule_for(attrs@.skip(i as int), key@),
        decreases attrs.len() - i,
    {
        assert(attrs@.skip(i as int).drop_first() =~= attrs@.skip(i + 1));
        if attrs[i].0 == wanted {
            match &attrs[i].1.sanitize {
                Some(name) => {
                    return rule_of(name.as_str());
                },
                None => {},
            }
        }
        i += 1;
    }
    Sanitize::Keep
}

/// The description of a declared field: its kind by the plain type that
/// the attributes give it or, without one, by its declared type without the
/// wrapper; ciphered where the attributes give it a plain type; tidied by
/// the rule that they name.
pub open spec fn described(field: Declared, attrs: Seq<(String, CipherAttrs)>, spec: FieldSpec) -> bool {
    &&& spec.name@ == field.name@
    &&& spec.kind == kind_named(
        match attributed(attrs, field.name@, "types"@) {
            Some(t) => t,
            None => unwrapped(type_text(field.ty@)),
        },
    )
    &&& spec.ciphered == attributed(attrs, field.name@, "types"@) is Some
    &&& spec.sanitize == rule_for(attrs, field.name@)
}

impl Schema {
    /// The schema of an entity from its declaration: one description for
    /// each declared field, in order.
    pub fn declare(entity: &str, fields: &Vec<Declared>, attrs: &Vec<(String, CipherAttrs)>) -> (r:
        Schema)
        ensures
            r.entity@ == entity@,
            r.fields@.len() == fields@.len(),
            forall|k: int|
                0 <= k < fields@.len() ==> described(fields@[k], attrs@, #[trigger] r.fields@[k]),
    {
        let mut out: Vec<FieldSpec> = Vec::new();
        let mut i: usize = 0;
        while i < fields.len()
            invariant
                i <= fields.len(),
                out@.len() == i,
                forall|k: int| 0 <= k < i ==> described(fields@[k], attrs@, #[trigger] out@[k]),
            decreases fields.len() - i,
        {
            let name = fields[i].name.as_str();
            let ty = get_dynamic_type(name, "types", fields[i].ty.as_str(), attrs);
            let kind = if ty == String::from_str("i32") {
                Kind::Int
            } else {
                Kind::Text
            };
            out.push(
                FieldSpec {
                    name: fields[i].name.clone(),
                    kind,
                    ciphered: is_attributed_type(name, "types", attrs),
                    sanitize: find_rule(name, attrs),
                },
            );
            i += 1;
        }
        Schema { entity: String::from_str(entity), fields: out }
    }
}

} // verus!
