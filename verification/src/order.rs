//! The order value: one side, a remaining quantity, a limit price in ticks,
//! and an arrival sequence number used only for tie-breaking.

use vstd::prelude::*;
use crate::order_result::OrderType;

verus! {

/// One limit order. `price` is counted in ticks (the instrument's smallest
/// price increment); `instant` is a per-engine monotonically increasing
/// arrival sequence number, comparable only for tie-breaking.
#[derive(Clone, Copy, Debug)]
pub struct Order {
    pub order_type: OrderType,
    pub quantity: u64,
    pub price: u64,
    pub instant: u64,
}

impl Order {
    pub fn new(order_type: OrderType, quantity: u64, price: u64, instant: u64) -> (r: Order)
        ensures
            r == (Order { order_type, quantity, price, instant }),
    {
        Order { order_type, quantity, price, instant }
    }
}

} // verus!
