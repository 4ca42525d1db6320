//! Client filters compiled to predicates with positional parameters.
//!
//! A column name is spliced into the predicate only after it was sanitized;
//! a value never is: it is bound to the parameter that the predicate names.

use crate::json::{field, plain_text, text_field, text_field_of, Json, JsonValue};
use crate::text::{decimal_text, push_decimal, sanitize_column, sanitized, texts};
use vstd::prelude::*;

verus! {

/// The comparison of a filter. `Unknown` stands for an operator that is
/// missing or not one of the six.
#[derive(Debug, Clone, Copy, PartialEq, Eq, Structural)]
pub enum FilterOp {
    Gt,
    Lt,
    Like,
    LikeLeft,
    LikeRight,
    Eq,
    Unknown,
}

/// One filter of a request: a column, a comparison and the value compared
/// with.
#[derive(Debug, PartialEq, Eq)]
pub struct Filter {
    pub cols: String,
    pub ops: FilterOp,
    pub vals: Json,
}

/// The mathematical value of a [`Filter`].
pub struct FilterValue {
    pub cols: Seq<char>,
    pub ops: FilterOp,
    pub vals: JsonValue,
}

impl View for Filter {
    type V = FilterValue;

    open spec fn view(&self) -> FilterValue {
        FilterValue { cols: self.cols@, ops: self.ops, vals: self.vals@ }
    }
}

/// The values of a list of filters, in order.
pub open spec fn filter_values(filters: Seq<Filter>) -> Seq<FilterValue> {
    filters.map_values(|f: Filter| f@)
}

/// The values of a list of JSON values, in order.
pub open spec fn json_values(values: Seq<Json>) -> Seq<JsonValue> {
    values.map_values(|v: Json| v@)
}

/// The comparison that a name stands for.
pub open spec fn filter_op_named(name: Seq<char>) -> FilterOp {
    if name == "Gt"@ {
        FilterOp::Gt
    } else if name == "Lt"@ {
        FilterOp::Lt
    } else if name == "Like"@ {
        FilterOp::Like
    } else if name == "LikeLeft"@ {
        FilterOp::LikeLeft
    } else if name == "LikeRight"@ {
        FilterOp::LikeRight
    } else if name == "Eq"@ {
        FilterOp::Eq
    } else {
        FilterOp::Unknown
    }
}

/// The filter that an entry of the filter list stands for: the column under
/// `cols`, the comparison named under `ops`, the value under `vals` (null
/// where there is none).
pub open spec fn filter_of(entry: JsonValue) -> FilterValue {
    FilterValue {
        cols: text_field(entry, "cols"@),
        ops: filter_op_named(text_field(entry, "ops"@)),
        vals: match field(entry, "vals"@) {
            Some(v) => v,
            None => JsonValue::Null,
        },
    }
}

/// The filters that a JSON value stands for: those of its entries where it
/// is an array whose entries can be numbered, none otherwise.
pub open spec fn filters_of(value: JsonValue) -> Seq<FilterValue> {
    match value {
        JsonValue::Array(entries) => if entries.len() < usize::MAX {
            entries.map_values(|e: JsonValue| filter_of(e))
        } else {
            Seq::empty()
        },
        _ => Seq::empty(),
    }
}

/// What stands between the column and the number of its parameter.
pub open spec fn comparison_text(op: FilterOp) -> Seq<char> {
    match op {
        FilterOp::Gt => " > $"@,
        FilterOp::Lt => " < $"@,
        FilterOp::Eq => " = $"@,
        _ => " LIKE $"@,
    }
}

/// The predicate of a filter whose value is bound to parameter `index`.
pub open spec fn predicate(filter: FilterValue, index: nat) -> Seq<char> {
    sanitized(filter.cols) + comparison_text(filter.ops) + decimal_text(index)
}

/// The value that is bound for a filter: the filter's own for `Gt`, `Lt` and
/// `Eq`; for the patterns a string, its text with `%` on both sides, in
/// front, or behind.
pub open spec fn bound_value(filter: FilterValue) -> JsonValue {
    match filter.ops {
        FilterOp::Like => JsonValue::Text("%"@ + plain_text(filter.vals) + "%"@),
        FilterOp::LikeLeft => JsonValue::Text("%"@ + plain_text(filter.vals)),
        FilterOp::LikeRight => JsonValue::Text(plain_text(filter.vals) + "%"@),
        _ => filter.vals,
    }
}

/// The filters with a known comparison, in order.
pub open spec fn known(filters: Seq<FilterValue>) -> Seq<FilterValue> {
    filters.filter(|f: FilterValue| f.ops != FilterOp::Unknown)
}

/// The predicates of a filter list: one for each filter with a known
/// comparison, numbered from 1 in order.
pub open spec fn predicates(filters: Seq<FilterValue>) -> Seq<Seq<char>> {
    let kept = known(filters);
    Seq::new(kept.len(), |i: int| predicate(kept[i], (i + 1) as nat))
}

/// The values bound for a filter list, one for each predicate.
pub open spec fn bound_values(filters: Seq<FilterValue>) -> Seq<JsonValue> {
    known(filters).map_values(|f: FilterValue| bound_value(f))
}

/// The first parameter number that a filter list leaves free.
pub open spec fn next_index(filters: Seq<FilterValue>) -> nat {
    known(filters).len() + 1
}

/// Nothing of what the client sent is spliced into a predicate but the
/// characters of the column that may stand in a name: a predicate is those
/// characters, the comparison, and the digits of the parameter number.
pub proof fn lemma_predicate_is_safe(filter: FilterValue, index: nat)
    ensures
        predicate(filter, index) == sanitized(filter.cols) + comparison_text(filter.ops)
            + decimal_text(index),
        crate::text::identifier_text(sanitized(filter.cols)),
        crate::number::all_digits(decimal_text(index)),
{
    crate::text::lemma_sanitized_safe(filter.cols);
    crate::number::lemma_decimal_text(index);
}

/// The predicates, the bound values and the free parameter number of a
/// filter list agree: one value for each predicate, and the number after
/// the last one used.
pub proof fn lemma_compiled_agree(filters: Seq<FilterValue>)
    ensures
        predicates(filters).len() == bound_values(filters).len(),
        next_index(filters) == predicates(filters).len() + 1,
        predicates(filters).len() <= filters.len(),
        forall|i: int|
            0 <= i < predicates(filters).len() ==> #[trigger] predicates(filters)[i] == predicate(
                known(filters)[i],
                (i + 1) as nat,
            ),
{
    filters.lemma_filter_len(|f: FilterValue| f.ops != FilterOp::Unknown);
}

/// The comparison that `name` stands for.
pub fn filter_op_of(name: &str) -> (r: FilterOp)
    ensures
        r == filter_op_named(name@),
{
    let name = String::from_str(name);
    if name == String::from_str("Gt") {
        FilterOp::Gt
    } else if name == String::from_str("Lt") {
        FilterOp::Lt
    } else if name == String::from_str("Like") {
        FilterOp::Like
    } else if name == String::from_str("LikeLeft") {
        FilterOp::LikeLeft
    } else if name == String::from_str("LikeRight") {
        FilterOp::LikeRight
    } else if name == String::from_str("Eq") {
        FilterOp::Eq
    } else {
        FilterOp::Unknown
    }
}

impl Filter {
    /// The filter that an entry of the filter list stands for.
    pub fn from_json(entry: &Json) -> (r: Filter)
        ensures
            r@ == filter_of(entry@),
    {
        let cols = text_field_of(entry, "cols");
        let name = text_field_of(entry, "ops");
        let vals = match entry.get("vals") {
            Some(v) => v.clone(),
            None => Json::Null,
        };
        Filter { cols, ops: filter_op_of(name.as_str()), vals }
    }

    /// The predicate of this filter with its value bound to parameter
    /// `index`.
    pub fn predicate(&self, index: usize) -> (r: String)
        ensures
            r@ == predicate(self@, index as nat),
    {
        let mut out = sanitize_column(self.cols.as_str());
        match self.ops {
            FilterOp::Gt => out.append(" > $"),
            FilterOp::Lt => out.append(" < $"),
            FilterOp::Eq => out.append(" = $"),
            _ => out.append(" LIKE $"),
        }
        push_decimal(&mut out, index as u64);
        out
    }

    /// The value that is bound for this filter.
    pub fn bound_value(&self) -> (r: Json)
        ensures
            r@ == bound_value(self@),
    {
        match self.ops {
            FilterOp::Like => {
                let mut out = String::from_str("%");
                out.append(self.vals.plain_text().as_str());
                out.append("%");
                Json::Text(out)
            },
            FilterOp::LikeLeft => {
                let mut out = String::from_str("%");
                out.append(self.vals.plain_text().as_str());
                Json::Text(out)
            },
            FilterOp::LikeRight => {
                let mut out = self.vals.plain_text();
                out.append("%");
                Json::Text(out)
            },
            _ => self.vals.clone(),
        }
    }
}

/// The filters that a JSON value stands for.
pub fn decode_filters(value: &Json) -> (r: Vec<Filter>)
    ensures
        filter_values(r@) == filters_of(value@),
        r@.len() < usize::MAX,
{
    let mut out: Vec<Filter> = Vec::new();
    match value {
        Json::Array(entries) => {
            proof {
                crate::json::lemma_view_items(*value);
            }
            if entries.len() == usize::MAX {
                assert(filter_values(out@) =~= filters_of(value@));
                return out;
            }
            let mut i: usize = 0;
            while i < entries.len()
                invariant
                    *value == Json::Array(*entries),
                    i <= entries.len(),
                    entries.len() < usize::MAX,
                    out@.len() == i,
                    forall|k: int| 0 <= k < i ==> (#[trigger] out@[k])@ == filter_of(entries@[k]@),
                decreases entries.len() - i,
            {
                out.push(Filter::from_json(&entries[i]));
                i += 1;
            }
            proof {
                crate::json::lemma_view_items(*value);
                assert(filter_values(out@) =~= filters_of(value@));
            }
            out
        },
        _ => {
            assert(filter_values(out@) =~= filters_of(value@));
            out
        },
    }
}

/// Compiles a filter list: the predicates, the values bound to their
/// parameters, and the first parameter number left free. A filter with an
/// unknown comparison gives no predicate and takes no number.
pub fn compile_filters(filters: &Vec<Filter>) -> (r: (Vec<String>, Vec<Json>, usize))
    requires
        filters@.len() < usize::MAX,
    ensures
        texts(r.0@) == predicates(filter_values(filters@)),
        json_values(r.1@) == bound_values(filter_values(filters@)),
        r.2 == next_index(filter_values(filters@)),
        r.0@.len() == r.1@.len(),
        r.2 == r.0@.len() + 1,
{
    let mut conds: Vec<String> = Vec::new();
    let mut vals: Vec<Json> = Vec::new();
    let mut next: usize = 1;
    let mut i: usize = 0;
    let ghost all = filter_values(filters@);
    assert(all.take(0) =~= Seq::<FilterValue>::empty());
    while i < filters.len()
        invariant
            i <= filters.len(),
            filters@.len() < usize::MAX,
            all == filter_values(filters@),
            next == conds@.len() + 1,
            conds@.len() == vals@.len(),
            conds@.len() <= i,
            texts(conds@) == predicates(all.take(i as int)),
            json_values(vals@) == bound_values(all.take(i as int)),
        decreases filters.len() - i,
    {
        let ghost before = all.take(i as int);
        let ghost after = all.take(i + 1);
        proof {
            assert(after.drop_last() =~= before);
            assert(after.last() == filters@[i as int]@);
            reveal(Seq::filter);
        }
        let filter = &filters[i];
        match filter.ops {
            FilterOp::Unknown => {
                assert(known(after) == known(before));
            },
            _ => {
                assert(known(after) == known(before).push(filter@));
                let ghost old_conds = conds@;
                let ghost old_vals = vals@;
                let cond = filter.predicate(next);
                let val = filter.bound_value();
                conds.push(cond);
                vals.push(val);
                next += 1;
                proof {
                    let count = old_conds.len() as int;
                    assert(known(before).len() == count) by {
                        assert(texts(old_conds).len() == predicates(before).len());
                    }
                    assert forall|k: int| 0 <= k < count + 1 implies texts(conds@)[k]
                        == predicates(after)[k] by {
                        if k < count {
                            assert(texts(old_conds)[k] == predicates(before)[k]);
                        }
                    }
                    assert(texts(conds@) =~= predicates(after));
                    assert forall|k: int| 0 <= k < count + 1 implies json_values(vals@)[k]
                        == bound_values(after)[k] by {
                        if k < count {
                            assert(json_values(old_vals)[k] == bound_values(before)[k]);
                        }
                    }
                    assert(json_values(vals@) =~= bound_values(after));
                }
            },
        }
        i += 1;
    }
    assert(all.take(i as int) =~= all);
    (conds, vals, next)
}

} // verus!
