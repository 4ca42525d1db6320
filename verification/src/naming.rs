//! The names under which the fields of an entity appear in a query.
//!
//! Every name is built from the prefix of the entity, which is its name in
//! snake case and lower case, and the name of the field.

use crate::schema::{FieldSpec, Schema};
use crate::text::{join, joined, lowercase, lowercased, texts};
use vstd::prelude::*;

verus! {

/// What `stringcase::snake_case` makes of a text.
pub uninterp spec fn snake_cased(text: Seq<char>) -> Seq<char>;

/// `stringcase::snake_case`: the text in snake case, a function of the text
/// alone.
#[verifier::external_body]
fn snake_case(text: &str) -> (r: String)
    ensures
        r@ == snake_cased(text@),
{
    stringcase::snake_case(text)
}

/// The prefix of an entity: its name in snake case, lowercased.
pub open spec fn prefix_of(entity: Seq<char>) -> Seq<char> {
    lowercased(snake_cased(entity))
}

/// The field of the table, selected under its renamed name:
/// `prefix.field AS prefix_field`.
pub open spec fn aliased_name(prefix: Seq<char>, field: Seq<char>) -> Seq<char> {
    prefix + "."@ + field + " AS "@ + prefix + "_"@ + field
}

/// The field on its own, lowercased.
pub open spec fn plain_name(field: Seq<char>) -> Seq<char> {
    lowercased(field)
}

/// The name under which a row carries the field: `prefix_field`.
pub open spec fn renamed_name(prefix: Seq<char>, field: Seq<char>) -> Seq<char> {
    prefix + "_"@ + field
}

/// The field of the table: `prefix.field`.
pub open spec fn tabled_name(prefix: Seq<char>, field: Seq<char>) -> Seq<char> {
    prefix + "."@ + field
}

/// The names of the fields of a schema, in order.
pub open spec fn field_names(schema: &Schema) -> Seq<Seq<char>> {
    schema.fields@.map_values(|f: FieldSpec| f.name@)
}

/// The names of a schema's fields under one of the naming conventions.
#[derive(Debug, Clone, Copy, PartialEq, Eq, Structural)]
pub enum Style {
    Aliased,
    Plain,
    Renamed,
    Tabled,
}

/// The name of a field under a naming convention.
pub open spec fn styled_name(style: Style, prefix: Seq<char>, field: Seq<char>) -> Seq<char> {
    match style {
        Style::Aliased => aliased_name(prefix, field),
        Style::Plain => plain_name(field),
        Style::Renamed => renamed_name(prefix, field),
        Style::Tabled => tabled_name(prefix, field),
    }
}

/// The names of all fields of a schema under a naming convention, in order.
pub open spec fn styled_names(style: Style, schema: &Schema) -> Seq<Seq<char>> {
    field_names(schema).map_values(
        |field: Seq<char>| styled_name(style, prefix_of(schema.entity@), field),
    )
}

/// The prefix of an entity called `entity`.
pub fn prefix(entity: &str) -> (r: String)
    ensures
        r@ == prefix_of(entity@),
{
    let snake = snake_case(entity);
    lowercase(snake.as_str())
}

/// `prefix.field AS prefix_field`.
pub fn aliased(prefix: &str, field: &str) -> (r: String)
    ensures
        r@ == aliased_name(prefix@, field@),
{
    let mut out = String::from_str(prefix);
    out.append(".");
    out.append(field);
    out.append(" AS ");
    out.append(prefix);
    out.append("_");
    out.append(field);
    out
}

/// The field on its own, lowercased.
pub fn plain(field: &str) -> (r: String)
    ensures
        r@ == plain_name(field@),
{
    lowercase(field)
}

/// `prefix_field`.
pub fn renamed(prefix: &str, field: &str) -> (r: String)
    ensures
        r@ == renamed_name(prefix@, field@),
{
    let mut out = String::from_str(prefix);
    out.append("_");
    out.append(field);
    out
}

/// `prefix.field`.
pub fn tabled(prefix: &str, field: &str) -> (r: String)
    ensures
        r@ == tabled_name(prefix@, field@),
{
    let mut out = String::from_str(prefix);
    out.append(".");
    out.append(field);
    out
}

/// The name of a field under a naming convention.
pub fn styled(style: Style, prefix: &str, field: &str) -> (r: String)
    ensures
        r@ == styled_name(style, prefix@, field@),
{
    match style {
        Style::Aliased => aliased(prefix, field),
        Style::Plain => plain(field),
        Style::Renamed => renamed(prefix, field),
        Style::Tabled => tabled(prefix, field),
    }
}

impl Schema {
    /// The names of all fields under a naming convention, in order.
    pub fn names(&self, style: Style) -> (r: Vec<String>)
        ensures
            texts(r@) == styled_names(style, self),
    {
        let prefix = prefix(self.entity.as_str());
        let mut out: Vec<String> = Vec::new();
        let mut i: usize = 0;
        while i < self.fields.len()
            invariant
                i <= self.fields.len(),
                prefix@ == prefix_of(self.entity@),
                out@.len() == i,
                forall|k: int|
                    0 <= k < i ==> (#[trigger] out@[k])@ == styled_name(
                        style,
                        prefix@,
                        self.fields@[k].name@,
                    ),
            decreases self.fields.len() - i,
        {
            out.push(styled(style, prefix.as_str(), self.fields[i].name.as_str()));
            i += 1;
        }
        assert(texts(out@) =~= styled_names(style, self));
        out
    }

    /// The names of all fields under a naming convention, joined by commas:
    /// the column list of a query.
    pub fn all(&self, style: Style) -> (r: String)
        ensures
            r@ == joined(styled_names(style, self), ","@),
    {
        join(&self.names(style), ",")
    }
}

} // verus!
