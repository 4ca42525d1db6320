//! Client sort orders compiled to an `ORDER BY` clause.

use crate::json::{text_field, text_field_of, Json, JsonValue};
use crate::text::{join, joined, sanitize_column, sanitized, texts};
use vstd::prelude::*;

verus! {

/// The direction of a sort. `Unknown` stands for a direction that is
/// missing or neither of the two.
#[derive(Debug, Clone, Copy, PartialEq, Eq, Structural)]
pub enum OrderOp {
    Asc,
    Desc,
    Unknown,
}

/// One sort of a request: a column and a direction.
#[derive(Debug, PartialEq, Eq)]
pub struct Order {
    pub cols: String,
    pub ops: OrderOp,
}

/// The mathematical value of an [`Order`].
pub struct OrderValue {
    pub cols: Seq<char>,
    pub ops: OrderOp,
}

impl View for Order {
    type V = OrderValue;

    open spec fn view(&self) -> OrderValue {
        OrderValue { cols: self.cols@, ops: self.ops }
    }
}

/// The values of a list of orders, in order.
pub open spec fn order_values(orders: Seq<Order>) -> Seq<OrderValue> {
    orders.map_values(|o: Order| o@)
}

/// The direction that a name stands for.
pub open spec fn order_op_named(name: Seq<char>) -> OrderOp {
    if name == "Asc"@ {
        OrderOp::Asc
    } else if name == "Desc"@ {
        OrderOp::Desc
    } else {
        OrderOp::Unknown
    }
}

/// The order that an entry of the order list stands for: the column under
/// `cols` and the direction named under `ops`.
pub open spec fn order_of(entry: JsonValue) -> OrderValue {
    OrderValue {
        cols: text_field(entry, "cols"@),
        ops: order_op_named(text_field(entry, "ops"@)),
    }
}

/// The orders that a JSON value stands for: those of its entries where it
/// is an array, none otherwise.
pub open spec fn orders_of(value: JsonValue) -> Seq<OrderValue> {
    match value {
        JsonValue::Array(entries) => entries.map_values(|e: JsonValue| order_of(e)),
        _ => Seq::empty(),
    }
}

/// The clause of one order: the sanitized column and the direction.
pub open spec fn clause(order: OrderValue) -> Seq<char> {
    sanitized(order.cols) + (if order.ops == OrderOp::Desc {
        " DESC"@
    } else {
        " ASC"@
    })
}

/// The orders with a known direction, in order.
pub open spec fn directed(orders: Seq<OrderValue>) -> Seq<OrderValue> {
    orders.filter(|o: OrderValue| o.ops != OrderOp::Unknown)
}

/// The clauses of an order list, one for each order with a known direction.
pub open spec fn clauses(orders: Seq<OrderValue>) -> Seq<Seq<char>> {
    directed(orders).map_values(|o: OrderValue| clause(o))
}

/// The `ORDER BY` clause of an order list: its clauses joined by commas,
/// or the default order where it has none.
pub open spec fn order_by(orders: Seq<OrderValue>, default_order: Seq<char>) -> Seq<char> {
    "ORDER BY "@ + (if clauses(orders).len() == 0 {
        default_order
    } else {
        joined(clauses(orders), ", "@)
    })
}

/// The direction that `name` stands for.
pub fn order_op_of(name: &str) -> (r: OrderOp)
    ensures
        r == order_op_named(name@),
{
    let name = String::from_str(name);
    if name == String::from_str("Asc") {
        OrderOp::Asc
    } else if name == String::from_str("Desc") {
        OrderOp::Desc
    } else {
        OrderOp::Unknown
    }
}

impl Order {
    /// The order that an entry of the order list stands for.
    pub fn from_json(entry: &Json) -> (r: Order)
        ensures
            r@ == order_of(entry@),
    {
        let cols = text_field_of(entry, "cols");
        let name = text_field_of(entry, "ops");
        Order { cols, ops: order_op_of(name.as_str()) }
    }

    /// The clause of this order.
    pub fn clause(&self) -> (r: String)
        ensures
            r@ == clause(self@),
    {
        let mut out = sanitize_column(self.cols.as_str());
        match self.ops {
            OrderOp::Desc => out.append(" DESC"),
            _ => out.append(" ASC"),
        }
        out
    }
}

/// The orders that a JSON value stands for.
pub fn decode_orders(value: &Json) -> (r: Vec<Order>)
    ensures
        order_values(r@) == orders_of(value@),
{
    let mut out: Vec<Order> = Vec::new();
    match value {
        Json::Array(entries) => {
            let mut i: usize = 0;
            while i < entries.len()
                invariant
                    i <= entries.len(),
                    out@.len() == i,
                    forall|k: int| 0 <= k < i ==> (#[trigger] out@[k])@ == order_of(entries@[k]@),
                decreases entries.len() - i,
            {
                out.push(Order::from_json(&entries[i]));
                i += 1;
            }
            proof {
                crate::json::lemma_view_items(*value);
                assert(order_values(out@) =~= orders_of(value@));
            }
            out
        },
        _ => {
            assert(order_values(out@) =~= orders_of(value@));
            out
        },
    }
}

/// Compiles an order list to its `ORDER BY` clause. An order with an
/// unknown direction gives no clause; where no clause is left the default
/// order stands.
pub fn compile_orders(orders: &Vec<Order>, default_order: &str) -> (r: String)
    ensures
        r@ == order_by(order_values(orders@), default_order@),
{
    let mut parts: Vec<String> = Vec::new();
    let mut i: usize = 0;
    let ghost all = order_values(orders@);
    proof {
        assert(all.take(0) =~= Seq::<OrderValue>::empty());
        assert(texts(parts@) =~= clauses(all.take(0)));
    }
    while i < orders.len()
        invariant
            i <= orders.len(),
            all == order_values(orders@),
            texts(parts@) == clauses(all.take(i as int)),
        decreases orders.len() - i,
    {
        let ghost before = all.take(i as int);
        let ghost after = all.take(i + 1);
        proof {
            assert(after.drop_last() =~= before);
            assert(after.last() == orders@[i as int]@);
            reveal(Seq::filter);
        }
        let order = &orders[i];
        match order.ops {
            OrderOp::Unknown => {
                assert(directed(after) == directed(before));
            },
            _ => {
                let ghost old_parts = parts@;
                parts.push(order.clause());
                proof {
                    assert(directed(after) == directed(before).push(order@));
                    assert(clauses(after) =~= clauses(before).push(clause(order@)));
                    assert(texts(parts@) =~= texts(old_parts).push(clause(order@)));
                }
            },
        }
        i += 1;
    }
    assert(all.take(i as int) =~= all);
    let mut out = String::from_str("ORDER BY ");
    if parts.len() == 0 {
        out.append(default_order);
    } else {
        out.append(join(&parts, ", ").as_str());
    }
    out
}

} // verus!
