//! The mathematical model of the matching algorithm.
//!
//! `spec_match_events`, `spec_match_book` and `spec_match_rem` describe, over
//! plain sequences, what processing one incoming order against the opposite
//! side's book produces: the stream of EXECUTED events, the contra book that
//! is left, and the incoming quantity that is left. The engine's executable
//! code is verified against exactly these three functions.

use vstd::prelude::*;
use crate::order::Order;
use crate::order_result::OrderResult;
use crate::order_result::OrderResultType;
use crate::order_result::OrderType;

verus! {

/// A resting order and an incoming order cross: they are on opposite sides
/// and the incoming order's limit is no less favorable than the resting price
/// (a BUY crosses a resting SELL priced at or below its limit, a SELL crosses
/// a resting BUY priced at or above its limit).
pub open spec fn spec_crosses(booked: Order, received: Order) -> bool {
    ||| (booked.order_type == OrderType::BUY && received.order_type == OrderType::SELL
        && booked.price >= received.price)
    ||| (booked.order_type == OrderType::SELL && received.order_type == OrderType::BUY
        && booked.price <= received.price)
}

/// The quantity a single match fills: the smaller of the two orders' remaining
/// quantities.
pub open spec fn spec_exec_qty(booked: Order, received: Order) -> int {
    if received.quantity <= booked.quantity {
        received.quantity as int
    } else {
        booked.quantity as int
    }
}

/// The EXECUTED events produced by matching `inc` against `contra` (best
/// resting order first) until `inc` is exhausted, the book is exhausted, or
/// the best resting order no longer crosses. Every event carries the incoming
/// (taker) side and the resting (maker) price.
pub open spec fn spec_match_events(contra: Seq<Order>, inc: Order) -> Seq<OrderResult>
    decreases contra.len(),
{
    if inc.quantity == 0 || contra.len() == 0 || !spec_crosses(contra[0], inc) {
        Seq::empty()
    } else {
        let e = spec_exec_qty(contra[0], inc);
        seq![
            OrderResult {
                result_type: OrderResultType::EXECUTED,
                order_type: inc.order_type,
                quantity: e as u64,
                price: contra[0].price,
            },
        ] + spec_match_events(contra.drop_first(), Order { quantity: (inc.quantity - e) as u64, ..inc })
    }
}

/// The contra book left after matching `inc` against it: fully consumed
/// resting orders are removed; a partially consumed one stays at the head with
/// its quantity reduced and its price and arrival unchanged.
pub open spec fn spec_match_book(contra: Seq<Order>, inc: Order) -> Seq<Order>
    decreases contra.len(),
{
    if inc.quantity == 0 || contra.len() == 0 || !spec_crosses(contra[0], inc) {
        contra
    } else {
        let e = spec_exec_qty(contra[0], inc);
        if e == contra[0].quantity {
            spec_match_book(contra.drop_first(), Order { quantity: (inc.quantity - e) as u64, ..inc })
        } else {
            seq![Order { quantity: (contra[0].quantity - e) as u64, ..contra[0] }]
                + contra.drop_first()
        }
    }
}

/// The incoming quantity left unfilled after matching `inc` against `contra`.
pub open spec fn spec_match_rem(contra: Seq<Order>, inc: Order) -> int
    decreases contra.len(),
{
    if inc.quantity == 0 || contra.len() == 0 || !spec_crosses(contra[0], inc) {
        inc.quantity as int
    } else {
        let e = spec_exec_qty(contra[0], inc);
        spec_match_rem(contra.drop_first(), Order { quantity: (inc.quantity - e) as u64, ..inc })
    }
}

/// The total quantity carried by a result stream.
pub open spec fn sum_quantities(rs: Seq<OrderResult>) -> int
    decreases rs.len(),
{
    if rs.len() == 0 {
        0
    } else {
        rs[0].quantity + sum_quantities(rs.drop_first())
    }
}

/// Appending one result adds its quantity to the stream's total.
pub proof fn lemma_sum_push(rs: Seq<OrderResult>, r: OrderResult)
    ensures
        sum_quantities(rs.push(r)) == sum_quantities(rs) + r.quantity,
    decreases rs.len(),
{
    if rs.len() == 0 {
        assert(rs.push(r)[0] == r);
        assert(sum_quantities(Seq::<OrderResult>::empty()) == 0);
        assert(rs.push(r).drop_first() =~= Seq::<OrderResult>::empty());
    } else {
        lemma_sum_push(rs.drop_first(), r);
        assert(rs.push(r)[0] == rs[0]);
        assert(rs.push(r).drop_first() =~= rs.drop_first().push(r));
    }
}

} // verus!
