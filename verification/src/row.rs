//! Rows as the storage adapter hands them over, and the entities read from
//! them.
//!
//! A row carries each field of the entity under the column
//! `prefix_field`. A column that the row lacks, or that holds the database
//! null, reads as `Null`; a row that carries no column of the entity at all
//! reads as the default entity.

use crate::entity::{all_defined, all_undefined, blank_entity, Entity, Scalar, ScalarValue};
use crate::naming::{prefix, prefix_of, renamed, renamed_name};
use crate::null::Null;
use crate::schema::Schema;
use vstd::prelude::*;

verus! {

/// One column of a row: its name and its value, `None` for the database
/// null.
#[derive(Debug, PartialEq, Eq)]
pub struct Cell {
    pub column: String,
    pub value: Option<Scalar>,
}

/// A row of a result.
#[derive(Debug, PartialEq, Eq)]
pub struct Row {
    pub cells: Vec<Cell>,
}

/// What the adapter reports of the fetch of one row.
#[derive(Debug, PartialEq, Eq)]
pub enum Fetched {
    /// The row that was found.
    Found(Row),
    /// The query ran and found no row.
    Missing,
    /// The query failed, with the adapter's message.
    Failed(String),
}

/// Why no entity could be read.
#[derive(Debug, PartialEq, Eq)]
pub enum StoreError {
    /// The query failed, with the adapter's message.
    Query(String),
    /// The query found no row.
    NotFound,
}

/// The mathematical value of a stored value.
pub open spec fn stored_value(value: Option<Scalar>) -> Option<ScalarValue> {
    match value {
        Some(v) => Some(v@),
        None => None,
    }
}

impl View for Row {
    type V = Seq<(Seq<char>, Option<ScalarValue>)>;

    open spec fn view(&self) -> Seq<(Seq<char>, Option<ScalarValue>)> {
        self.cells@.map_values(|c: Cell| (c.column@, stored_value(c.value)))
    }
}

/// The value of the first cell of the row under `column`; `None` where the
/// row has no such column.
pub open spec fn lookup(row: Seq<(Seq<char>, Option<ScalarValue>)>, column: Seq<char>) -> Option<
    Option<ScalarValue>,
>
    decreases row.len(),
{
    if row.len() == 0 {
        None
    } else if row[0].0 == column {
        Some(row[0].1)
    } else {
        lookup(row.drop_first(), column)
    }
}

/// The column that carries field `index` of the schema.
pub open spec fn column_of(schema: &Schema, index: int) -> Seq<char> {
    renamed_name(prefix_of(schema.entity@), schema.fields@[index].name@)
}

/// Whether the row carries a column of the schema.
pub open spec fn carries(schema: &Schema, row: Seq<(Seq<char>, Option<ScalarValue>)>) -> bool {
    exists|i: int| 0 <= i < schema.fields@.len() && lookup(row, column_of(schema, i)) is Some
}

/// The field read from a column.
pub open spec fn read_field(found: Option<Option<ScalarValue>>) -> Null<ScalarValue> {
    match found {
        Some(Some(v)) => Null::Value(v),
        _ => Null::Null,
    }
}

/// The entity read from a row.
pub open spec fn parsed(schema: &Schema, row: Seq<(Seq<char>, Option<ScalarValue>)>) -> Seq<
    Null<ScalarValue>,
> {
    if carries(schema, row) {
        Seq::new(
            schema.fields@.len(),
            |i: int| read_field(lookup(row, column_of(schema, i))),
        )
    } else {
        blank_entity(schema.fields@.len())
    }
}

/// An entity read from a row that carries a column of the schema has no
/// undefined field; one read from any other row is the default entity.
pub proof fn lemma_parsed_defined(schema: &Schema, row: Seq<(Seq<char>, Option<ScalarValue>)>)
    ensures
        parsed(schema, row).len() == schema.fields@.len(),
        carries(schema, row) ==> all_defined(parsed(schema, row)),
        !carries(schema, row) ==> all_undefined(parsed(schema, row)),
{
}

impl Row {
    /// The value of the first cell under `column`: `None` where the row has
    /// no such column, `Some(None)` where it holds the database null.
    pub fn get(&self, column: &str) -> (r: Option<Option<Scalar>>)
        ensures
            match r {
                Some(found) => lookup(self@, column@) == Some(stored_value(found)),
                None => lookup(self@, column@) is None,
            },
    {
        let wanted = String::from_str(column);
        let ghost all = self@;
        let mut i: usize = 0;
        assert(all.skip(0) =~= all);
        while i < self.cells.len()
            invariant
                all == self@,
                wanted@ == column@,
                i <= self.cells.len(),
                lookup(all, column@) == lookup(all.skip(i as int), column@),
            decreases self.cells.len() - i,
        {
            proof {
                assert(all.skip(i as int).drop_first() =~= all.skip(i + 1));
                assert(all.skip(i as int)[0] == all[i as int]);
            }
            if self.cells[i].column == wanted {
                let found = match &self.cells[i].value {
                    Some(v) => Some(v.clone()),
                    None => None,
                };
                return Some(found);
            }
            i += 1;
        }
        assert(all.skip(i as int).len() == 0);
        None
    }
}

impl Entity {
    /// The entity read from a row: each field from the column
    /// `prefix_field`, a value where the column holds one and `Null` where
    /// it holds none or is missing. A row without any column of the schema
    /// gives the default entity. Reading never fails.
    pub fn parse(schema: &Schema, row: &Row) -> (r: Entity)
        ensures
            r@ == parsed(schema, row@),
    {
        let prefix = prefix(schema.entity.as_str());
        let mut fields: Vec<Null<Scalar>> = Vec::new();
        let mut any = false;
        let mut i: usize = 0;
        while i < schema.fields.len()
            invariant
                i <= schema.fields.len(),
                prefix@ == prefix_of(schema.entity@),
                fields@.len() == i,
                any == exists|k: int| 0 <= k < i && lookup(row@, column_of(schema, k)) is Some,
                forall|k: int|
                    0 <= k < i ==> crate::entity::field_value(#[trigger] fields@[k]) == read_field(
                        lookup(row@, column_of(schema, k)),
                    ),
            decreases schema.fields.len() - i,
        {
            let column = renamed(prefix.as_str(), schema.fields[i].name.as_str());
            assert(column@ == column_of(schema, i as int));
            match row.get(column.as_str()) {
                Some(found) => {
                    any = true;
                    fields.push(Null::wrap(found));
                },
                None => {
                    fields.push(Null::Null);
                },
            }
            i += 1;
        }
        if any {
            let r = Entity { fields };
            assert(r@ =~= parsed(schema, row@));
            r
        } else {
            Entity::new(schema.fields.len())
        }
    }

    /// The entities read from the rows of a result, in order; none where
    /// the query failed.
    pub fn parse_list(schema: &Schema, rows: &Result<Vec<Row>, String>) -> (r: Vec<Entity>)
        ensures
            match rows {
                Ok(found) => r@.len() == found@.len() && forall|k: int|
                    0 <= k < r@.len() ==> (#[trigger] r@[k])@ == parsed(schema, found@[k]@),
                Err(_) => r@.len() == 0,
            },
    {
        let mut out: Vec<Entity> = Vec::new();
        match rows {
            Ok(found) => {
                let mut i: usize = 0;
                while i < found.len()
                    invariant
                        i <= found.len(),
                        out@.len() == i,
                        forall|k: int|
                            0 <= k < i ==> (#[trigger] out@[k])@ == parsed(schema, found@[k]@),
                    decreases found.len() - i,
                {
                    out.push(Entity::parse(schema, &found[i]));
                    i += 1;
                }
            },
            Err(_) => {},
        }
        out
    }

    /// The entity of a fetch: the entity read from the row that was found,
    /// be it empty; `NotFound` where the adapter found no row, and the
    /// adapter's failure where the query failed.
    pub fn result(schema: &Schema, fetched: Fetched) -> (r: Result<Entity, StoreError>)
        ensures
            match fetched {
                Fetched::Found(row) => r matches Ok(entity) && entity@ == parsed(schema, row@),
                Fetched::Missing => r == Err::<Entity, StoreError>(StoreError::NotFound),
                Fetched::Failed(message) => r == Err::<Entity, StoreError>(
                    StoreError::Query(message),
                ),
            },
    {
        match fetched {
            Fetched::Found(row) => Ok(Entity::parse(schema, &row)),
            Fetched::Missing => Err(StoreError::NotFound),
            Fetched::Failed(message) => Err(StoreError::Query(message)),
        }
    }

    /// The entity of a joined row as a field of another entity: undefined
    /// where the row carried nothing of it.
    pub fn relational(schema: &Schema, row: &Row) -> (r: Null<Entity>)
        ensures
            match r {
                Null::Value(entity) => entity@ == parsed(schema, row@) && !all_undefined(
                    entity@,
                ),
                Null::Undefined => all_undefined(parsed(schema, row@)),
                Null::Null => false,
            },
    {
        let entity = Entity::parse(schema, row);
        if entity.is_empty() {
            Null::Undefined
        } else {
            Null::Value(entity)
        }
    }
}

} // verus!
