//! A side's order book: resting orders kept in strict price-time priority.
//!
//! The book is a sequence ordered best-priority first. On the BUY side the
//! best priority is the highest price, on the SELL side the lowest; ties at
//! equal price go to the earlier arrival. A book is represented as a `Vec`
//! whose head is the best resting order.

use vstd::prelude::*;
use crate::order::Order;
use crate::order_result::OrderResult;
use crate::order_result::OrderResultType;
use crate::order_result::OrderType;

verus! {

/// `a` outranks `b` in a side book: strictly better price for `a`'s side, or
/// equal price and earlier arrival. Both orders are meant to be on `a`'s side.
pub open spec fn comes_before(a: Order, b: Order) -> bool {
    match a.order_type {
        OrderType::BUY => a.price > b.price || (a.price == b.price && a.instant < b.instant),
        OrderType::SELL => a.price < b.price || (a.price == b.price && a.instant < b.instant),
    }
}

/// Every earlier entry of the book outranks every later one.
pub open spec fn prio_ordered(book: Seq<Order>) -> bool {
    forall|i: int, j: int|
        0 <= i < j < book.len() ==> comes_before(book[i], book[j])
}

/// Well-formedness of one side book: every entry is on `side`, has positive
/// remaining quantity and an arrival number below `bound`, and the book is in
/// strict price-time priority order.
pub open spec fn book_wf(book: Seq<Order>, side: OrderType, bound: u64) -> bool {
    &&& forall|i: int|
        0 <= i < book.len() ==> (#[trigger] book[i]).order_type == side && book[i].quantity > 0
            && book[i].instant < bound
    &&& prio_ordered(book)
}

/// The position where `o` belongs in `book`: the first index whose entry `o`
/// outranks, or the end of the book.
pub open spec fn spec_insert_pos(book: Seq<Order>, o: Order) -> int
    decreases book.len(),
{
    if book.len() == 0 {
        0
    } else if comes_before(o, book[0]) {
        0
    } else {
        1 + spec_insert_pos(book.drop_first(), o)
    }
}

/// `spec_insert_pos` is in range, outranks nothing before it, and is outranked
/// by nothing at it.
pub proof fn lemma_insert_pos_props(book: Seq<Order>, o: Order)
    ensures
        0 <= spec_insert_pos(book, o) <= book.len(),
        forall|j: int| 0 <= j < spec_insert_pos(book, o) ==> !comes_before(o, #[trigger] book[j]),
        spec_insert_pos(book, o) < book.len() ==> comes_before(o, book[spec_insert_pos(book, o)]),
    decreases book.len(),
{
    if book.len() == 0 {
    } else if comes_before(o, book[0]) {
    } else {
        lemma_insert_pos_props(book.drop_first(), o);
        assert forall|j: int| 0 <= j < spec_insert_pos(book, o) implies !comes_before(
            o,
            #[trigger] book[j],
        ) by {
            if j > 0 {
                assert(book[j] == book.drop_first()[j - 1]);
            }
        }
        if spec_insert_pos(book, o) < book.len() {
            assert(book[spec_insert_pos(book, o)] == book.drop_first()[
                spec_insert_pos(book.drop_first(), o)]);
        }
    }
}

/// Any index that outranks nothing before it and is outranked by nothing at it
/// is exactly `spec_insert_pos`.
pub proof fn lemma_insert_pos_unique(book: Seq<Order>, o: Order, i: int)
    requires
        0 <= i <= book.len(),
        forall|j: int| 0 <= j < i ==> !comes_before(o, #[trigger] book[j]),
        i < book.len() ==> comes_before(o, book[i]),
    ensures
        spec_insert_pos(book, o) == i,
    decreases book.len(),
{
    if book.len() == 0 {
    } else if comes_before(o, book[0]) {
        assert(i == 0);
    } else {
        assert(i > 0);
        assert forall|j: int| 0 <= j < i - 1 implies !comes_before(
            o,
            #[trigger] book.drop_first()[j],
        ) by {
            assert(book.drop_first()[j] == book[j + 1]);
        }
        if i - 1 < book.drop_first().len() {
            assert(book.drop_first()[i - 1] == book[i]);
        }
        lemma_insert_pos_unique(book.drop_first(), o, i - 1);
    }
}

/// Outranking is transitive among orders of one side.
pub proof fn lemma_comes_before_trans(a: Order, b: Order, c: Order)
    requires
        a.order_type == b.order_type,
        b.order_type == c.order_type,
        comes_before(a, b),
        comes_before(b, c),
    ensures
        comes_before(a, c),
{
}

/// Inserting a fresh order (arrival later than everything resting) at
/// `spec_insert_pos` keeps the book well formed, under a bound that covers the
/// new arrival.
pub proof fn lemma_insert_preserves_wf(book: Seq<Order>, o: Order, side: OrderType, bound: u64)
    requires
        book_wf(book, side, bound),
        o.order_type == side,
        o.quantity > 0,
        bound <= o.instant,
        o.instant < u64::MAX,
    ensures
        book_wf(
            book.insert(spec_insert_pos(book, o), o),
            side,
            (o.instant + 1) as u64,
        ),
{
    lemma_insert_pos_props(book, o);
    let pos = spec_insert_pos(book, o);
    let b2 = book.insert(pos, o);
    assert forall|i: int|
        0 <= i < b2.len() implies (#[trigger] b2[i]).order_type == side && b2[i].quantity > 0
        && b2[i].instant < o.instant + 1 by {
        if i < pos {
            assert(b2[i] == book[i]);
        } else if i == pos {
            assert(b2[i] == o);
        } else {
            assert(b2[i] == book[i - 1]);
        }
    }
    assert forall|i: int, j: int| 0 <= i < j < b2.len() implies comes_before(b2[i], b2[j]) by {
        if j < pos {
            assert(b2[i] == book[i] && b2[j] == book[j]);
        } else if i > pos {
            assert(b2[i] == book[i - 1] && b2[j] == book[j - 1]);
        } else if i < pos && j == pos {
            // o does not outrank book[i], and book[i] arrived earlier, so book[i] outranks o
            assert(b2[i] == book[i] && b2[j] == o);
            assert(!comes_before(o, book[i]));
            assert(book[i].instant < o.instant);
        } else if i == pos {
            // o outranks book[pos], which outranks every later entry
            assert(b2[i] == o && b2[j] == book[j - 1]);
            assert(comes_before(o, book[pos]));
            if j - 1 > pos {
                lemma_comes_before_trans(o, book[pos], book[j - 1]);
            }
        } else {
            // i < pos < j: an original pair
            assert(b2[i] == book[i] && b2[j] == book[j - 1]);
        }
    }
}

/// Relaxing the arrival bound keeps a book well formed.
pub proof fn lemma_book_wf_widen(book: Seq<Order>, side: OrderType, bound: u64, wider: u64)
    requires
        book_wf(book, side, bound),
        bound <= wider,
    ensures
        book_wf(book, side, wider),
{
}

/// Whether `a` outranks `b` in a side book (decided by `a`'s side).
pub fn order_comes_before(a: &Order, b: &Order) -> (r: bool)
    ensures
        r == comes_before(*a, *b),
{
    match a.order_type {
        OrderType::BUY => a.price > b.price || (a.price == b.price && a.instant < b.instant),
        OrderType::SELL => a.price < b.price || (a.price == b.price && a.instant < b.instant),
    }
}

/// Finds the index where `order` belongs in `order_book` under price-time
/// priority. Returns `None` when the book's head is on the other side (the
/// book cannot hold this order); an empty book accepts at index 0.
pub fn find_order_place(order_book: &Vec<Order>, order: &Order) -> (r: Option<usize>)
    ensures
        order_book@.len() == 0 ==> r == Some(0usize),
        order_book@.len() > 0 && order_book@[0].order_type != order.order_type ==> r is None,
        order_book@.len() > 0 && order_book@[0].order_type == order.order_type ==> r == Some(
            spec_insert_pos(order_book@, *order) as usize,
        ),
{
    if order_book.len() == 0 {
        return Some(0);
    }
    let first_order = &order_book[0];
    match (first_order.order_type, order.order_type) {
        (OrderType::BUY, OrderType::SELL) => {
            return None;
        },
        (OrderType::SELL, OrderType::BUY) => {
            return None;
        },
        _ => {},
    }
    let mut index: usize = 0;
    while index < order_book.len()
        invariant
            0 <= index <= order_book@.len(),
            order_book@.len() > 0,
            order_book@[0].order_type == order.order_type,
            forall|j: int| 0 <= j < index ==> !comes_before(*order, #[trigger] order_book@[j]),
        decreases order_book@.len() - index,
    {
        if order_comes_before(order, &order_book[index]) {
            proof {
                lemma_insert_pos_unique(order_book@, *order, index as int);
            }
            return Some(index);
        }
        index = index + 1;
    }
    proof {
        lemma_insert_pos_unique(order_book@, *order, order_book@.len() as int);
    }
    Some(order_book.len())
}

/// Records a QUEUED event for `order` and rests it in `order_book` at its
/// price-time priority position. The order must be fresh: it arrived after
/// everything already resting.
pub fn enqueue_order(order_book: &mut Vec<Order>, order: &Order, results: &mut Vec<OrderResult>)
    requires
        book_wf(old(order_book)@, order.order_type, order.instant),
        order.quantity > 0,
        order.instant < u64::MAX,
    ensures
        final(results)@ == old(results)@.push(
            OrderResult {
                result_type: OrderResultType::QUEUED,
                order_type: order.order_type,
                quantity: order.quantity,
                price: order.price,
            },
        ),
        final(order_book)@ == old(order_book)@.insert(
            spec_insert_pos(old(order_book)@, *order),
            *order,
        ),
        book_wf(final(order_book)@, order.order_type, (order.instant + 1) as u64),
{
    let result = OrderResult::new(
        OrderResultType::QUEUED,
        order.order_type,
        order.quantity,
        order.price,
    );
    results.push(result);

    let order_place = find_order_place(order_book, order);
    proof {
        lemma_insert_pos_props(order_book@, *order);
        lemma_insert_preserves_wf(order_book@, *order, order.order_type, order.instant);
    }
    match order_place {
        Some(place) => {
            order_book.insert(place, *order);
        },
        None => {
            // unreachable: the book holds only orders of `order`'s side
            proof {
                assert(false);
            }
        },
    }
}

} // verus!
