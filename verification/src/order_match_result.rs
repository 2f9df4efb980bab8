//! The outcome of matching one incoming order against one resting order.

use vstd::prelude::*;
use crate::order::Order;

verus! {

/// Result of one match attempt: the executed part of the incoming order (side
/// and quantity of the fill, at the maker's price), if any, and the incoming
/// order's remainder, if any is left over.
#[derive(Clone, Copy, Debug)]
pub struct OrderMatchResult {
    pub remaining_order: Option<Order>,
    pub executed_order: Option<Order>,
}

impl OrderMatchResult {
    pub fn new(executed_order: Option<Order>, remaining_order: Option<Order>) -> (r:
        OrderMatchResult)
        ensures
            r == (OrderMatchResult { remaining_order, executed_order }),
    {
        OrderMatchResult { remaining_order, executed_order }
    }
}

} // verus!
