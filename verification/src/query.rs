//! The query of a page request: its raw filter and order texts compiled to
//! predicates, bound values and an `ORDER BY` clause.
//!
//! A text that is missing, is no JSON or is no list is read as an empty
//! list: a malformed query never fails the request.

use crate::filter::{
    bound_values, compile_filters, decode_filters, filter_values, filters_of, json_values,
    next_index, predicates, Filter, FilterValue,
};
use crate::json::{json_parsed, Json};
use crate::order::{
    compile_orders, decode_orders, order_by, order_values, orders_of, Order, OrderValue,
};
use crate::page::Page;
use crate::text::texts;
use vstd::prelude::*;

verus! {

/// The filters that a raw filter text stands for.
pub open spec fn filters_of_text(text: Option<String>) -> Seq<FilterValue> {
    match text {
        Some(t) => match json_parsed(t@) {
            Some(v) => filters_of(v),
            None => Seq::empty(),
        },
        None => Seq::empty(),
    }
}

/// The orders that a raw order text stands for.
pub open spec fn orders_of_text(text: Option<String>) -> Seq<OrderValue> {
    match text {
        Some(t) => match json_parsed(t@) {
            Some(v) => orders_of(v),
            None => Seq::empty(),
        },
        None => Seq::empty(),
    }
}

/// The filters that a raw filter text stands for.
pub fn parse_filters(text: &Option<String>) -> (r: Vec<Filter>)
    ensures
        filter_values(r@) == filters_of_text(*text),
        r@.len() < usize::MAX,
{
    let parsed = match text {
        Some(t) => Json::parse(t.as_str()),
        None => None,
    };
    match parsed {
        Some(value) => decode_filters(&value),
        None => {
            let out: Vec<Filter> = Vec::new();
            assert(filter_values(out@) =~= Seq::<FilterValue>::empty());
            out
        },
    }
}

/// The orders that a raw order text stands for.
pub fn parse_orders(text: &Option<String>) -> (r: Vec<Order>)
    ensures
        order_values(r@) == orders_of_text(*text),
{
    let parsed = match text {
        Some(t) => Json::parse(t.as_str()),
        None => None,
    };
    match parsed {
        Some(value) => decode_orders(&value),
        None => {
            let out: Vec<Order> = Vec::new();
            assert(order_values(out@) =~= Seq::<OrderValue>::empty());
            out
        },
    }
}

impl<R> Page<R> {
    /// The filters of the request compiled: the predicates, the values bound
    /// to their parameters, and the first parameter number left free.
    pub fn filters(&self) -> (r: (Vec<String>, Vec<Json>, usize))
        ensures
            texts(r.0@) == predicates(filters_of_text(self.filters)),
            json_values(r.1@) == bound_values(filters_of_text(self.filters)),
            r.2 == next_index(filters_of_text(self.filters)),
            r.0@.len() == r.1@.len(),
            r.2 == r.0@.len() + 1,
    {
        let filters = parse_filters(&self.filters);
        compile_filters(&filters)
    }

    /// The `ORDER BY` clause of the request: its orders, or `default_order`
    /// where it names none.
    pub fn orders(&self, default_order: &str) -> (r: String)
        ensures
            r@ == order_by(orders_of_text(self.orders), default_order@),
    {
        let orders = parse_orders(&self.orders);
        compile_orders(&orders, default_order)
    }
}

} // verus!
