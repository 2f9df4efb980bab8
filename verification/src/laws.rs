//! The library's stated laws, proved once and for all over the matching model
//! and the book well-formedness predicate.

use vstd::prelude::*;
use crate::book::book_wf;
use crate::book::comes_before;
use crate::matching::spec_crosses;
use crate::matching::spec_exec_qty;
use crate::matching::spec_match_book;
use crate::matching::spec_match_events;
use crate::matching::spec_match_rem;
use crate::matching::sum_quantities;
use crate::order::Order;
use crate::order_result::OrderResult;
use crate::order_result::OrderResultType;
use crate::order_result::OrderType;

verus! {

/// Price priority on the ask side: a well-formed SELL book is non-decreasing
/// by price from its head, so the best (lowest) ask is always in front.
pub proof fn lemma_ask_price_priority(book: Seq<Order>, bound: u64)
    requires
        book_wf(book, OrderType::SELL, bound),
    ensures
        forall|i: int, j: int|
            0 <= i < j < book.len() ==> (#[trigger] book[i]).price <= (#[trigger] book[j]).price,
{
    assert forall|i: int, j: int|
        0 <= i < j < book.len() implies (#[trigger] book[i]).price <= (#[trigger] book[j]).price by {
        assert(comes_before(book[i], book[j]));
    }
}

/// Price priority on the bid side: a well-formed BUY book is non-increasing
/// by price from its head, so the best (highest) bid is always in front.
pub proof fn lemma_bid_price_priority(book: Seq<Order>, bound: u64)
    requires
        book_wf(book, OrderType::BUY, bound),
    ensures
        forall|i: int, j: int|
            0 <= i < j < book.len() ==> (#[trigger] book[i]).price >= (#[trigger] book[j]).price,
{
    assert forall|i: int, j: int|
        0 <= i < j < book.len() implies (#[trigger] book[i]).price >= (#[trigger] book[j]).price by {
        assert(comes_before(book[i], book[j]));
    }
}

/// Time priority at equal price: in a well-formed side book, two resting
/// orders at the same price stand in arrival order, earlier first.
pub proof fn lemma_time_priority(book: Seq<Order>, side: OrderType, bound: u64)
    requires
        book_wf(book, side, bound),
    ensures
        forall|i: int, j: int|
            0 <= i < j < book.len() && (#[trigger] book[i]).price == (#[trigger] book[j]).price
                ==> book[i].instant < book[j].instant,
{
    assert forall|i: int, j: int|
        0 <= i < j < book.len() && (#[trigger] book[i]).price == (#[trigger] book[j]).price
        implies book[i].instant < book[j].instant by {
        assert(comes_before(book[i], book[j]));
    }
}

/// Price improvement: the k-th EXECUTED event of one incoming order fills
/// against the k-th resting order of the contra book and carries exactly that
/// maker's price and the incoming (taker) side — never the taker's own limit
/// price. Every event of the match stream is an EXECUTED event.
pub proof fn lemma_price_improvement(contra: Seq<Order>, inc: Order)
    ensures
        spec_match_events(contra, inc).len() <= contra.len(),
        forall|k: int|
            0 <= k < spec_match_events(contra, inc).len() ==> {
                let ev = #[trigger] spec_match_events(contra, inc)[k];
                &&& ev.result_type == OrderResultType::EXECUTED
                &&& ev.order_type == inc.order_type
                &&& ev.price == contra[k].price
            },
    decreases contra.len(),
{
    if inc.quantity == 0 || contra.len() == 0 || !spec_crosses(contra[0], inc) {
    } else {
        let e = spec_exec_qty(contra[0], inc);
        let next = Order { quantity: (inc.quantity - e) as u64, ..inc };
        lemma_price_improvement(contra.drop_first(), next);
        let evs = spec_match_events(contra, inc);
        let rest = spec_match_events(contra.drop_first(), next);
        assert forall|k: int| 0 <= k < evs.len() implies {
            let ev = #[trigger] evs[k];
            &&& ev.result_type == OrderResultType::EXECUTED
            &&& ev.order_type == inc.order_type
            &&& ev.price == contra[k].price
        } by {
            if k > 0 {
                assert(evs[k] == rest[k - 1]);
                assert(contra.drop_first()[k - 1] == contra[k]);
            }
        }
    }
}

/// Conservation: for one incoming order, the quantity executed across all
/// events plus the quantity left unfilled equals the original quantity.
pub proof fn lemma_conservation(contra: Seq<Order>, inc: Order)
    ensures
        sum_quantities(spec_match_events(contra, inc)) + spec_match_rem(contra, inc)
            == inc.quantity,
        0 <= spec_match_rem(contra, inc) <= inc.quantity,
    decreases contra.len(),
{
    if inc.quantity == 0 || contra.len() == 0 || !spec_crosses(contra[0], inc) {
        assert(sum_quantities(Seq::<OrderResult>::empty()) == 0);
    } else {
        let e = spec_exec_qty(contra[0], inc);
        let next = Order { quantity: (inc.quantity - e) as u64, ..inc };
        lemma_conservation(contra.drop_first(), next);
        let evs = spec_match_events(contra, inc);
        let rest = spec_match_events(contra.drop_first(), next);
        assert(evs[0].quantity == e);
        assert(evs.drop_first() =~= rest);
    }
}

/// No cross, no op: when the contra book's best price does not cross the
/// incoming order, matching executes nothing, leaves the contra book exactly
/// as it was, and leaves the whole incoming quantity to be queued.
pub proof fn lemma_no_cross_no_op(contra: Seq<Order>, inc: Order)
    requires
        contra.len() > 0,
        !spec_crosses(contra[0], inc),
    ensures
        spec_match_events(contra, inc) == Seq::<OrderResult>::empty(),
        spec_match_book(contra, inc) == contra,
        spec_match_rem(contra, inc) == inc.quantity,
{
}

/// Full consumption: an incoming order whose quantity is fully absorbed
/// produces EXECUTED events only; nothing is left to queue, so the result
/// stream carries no QUEUED event.
pub proof fn lemma_full_consumption(contra: Seq<Order>, inc: Order)
    requires
        spec_match_rem(contra, inc) == 0,
    ensures
        forall|k: int|
            0 <= k < spec_match_events(contra, inc).len()
                ==> (#[trigger] spec_match_events(contra, inc)[k]).result_type
                == OrderResultType::EXECUTED,
        sum_quantities(spec_match_events(contra, inc)) == inc.quantity,
{
    lemma_price_improvement(contra, inc);
    lemma_conservation(contra, inc);
}

} // verus!
