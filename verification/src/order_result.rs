//! Event types describing what happened while one incoming order was processed,
//! and the order side itself.

use vstd::prelude::*;

verus! {

/// What happened to (part of) an order: it was queued into its side's book, or
/// it executed against a resting counter-order.
#[derive(Clone, Copy, Debug, PartialEq, Eq, Structural)]
pub enum OrderResultType {
    QUEUED,
    EXECUTED,
}

/// The side of an order: BUY (bid) or SELL (ask).
#[derive(Clone, Copy, Debug, PartialEq, Eq, Structural)]
pub enum OrderType {
    BUY,
    SELL,
}

/// The side a given order matches against: the opposite one.
pub open spec fn opposite(side: OrderType) -> OrderType {
    match side {
        OrderType::BUY => OrderType::SELL,
        OrderType::SELL => OrderType::BUY,
    }
}

/// One immutable historical record in the result stream of `add_order`:
/// either "this quantity was queued at this price" or "this quantity executed
/// at this (maker) price". The side is always the incoming (taker) order's side.
#[derive(Clone, Copy, Debug)]
pub struct OrderResult {
    pub result_type: OrderResultType,
    pub order_type: OrderType,
    pub quantity: u64,
    pub price: u64,
}

impl OrderResult {
    pub fn new(result_type: OrderResultType, order_type: OrderType, quantity: u64, price: u64) -> (r:
        OrderResult)
        ensures
            r == (OrderResult { result_type, order_type, quantity, price }),
    {
        OrderResult { result_type, order_type, quantity, price }
    }
}

/// Decodes the wire encoding of an order side: 0 is BUY, 1 is SELL, anything
/// else is an invalid side token and is rejected.
pub fn side_from_code(code: i32) -> (r: Option<OrderType>)
    ensures
        code == 0 ==> r == Some(OrderType::BUY),
        code == 1 ==> r == Some(OrderType::SELL),
        code != 0 && code != 1 ==> r is None,
{
    if code == 0 {
        Some(OrderType::BUY)
    } else if code == 1 {
        Some(OrderType::SELL)
    } else {
        None
    }
}

} // verus!
