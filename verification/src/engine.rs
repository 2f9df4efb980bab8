//! The matching engine: owns the two side books of one instrument and turns
//! each incoming order into a deterministic stream of results.

use vstd::prelude::*;
use crate::book::book_wf;
use crate::book::enqueue_order;
use crate::book::lemma_book_wf_widen;
use crate::book::spec_insert_pos;
use crate::laws::lemma_conservation;
use crate::matching::spec_crosses;
use crate::matching::spec_exec_qty;
use crate::matching::spec_match_book;
use crate::matching::spec_match_events;
use crate::matching::spec_match_rem;
use crate::matching::sum_quantities;
use crate::matching::lemma_sum_push;
use crate::order::Order;
use crate::order_match_result::OrderMatchResult;
use crate::order_result::opposite;
use crate::order_result::OrderResult;
use crate::order_result::OrderResultType;
use crate::order_result::OrderType;

verus! {

/// One matching engine instance: one instrument, one BUY book and one SELL
/// book, and the arrival counter stamped onto each incoming order.
#[derive(Debug)]
pub struct MatchingEngine {
    pub asset: String,
    pub buy_order_book: Vec<Order>,
    pub sell_order_book: Vec<Order>,
    pub next_instant: u64,
}

/// True when the head of `contra_book` crosses `received`.
fn front_crosses(contra_book: &Vec<Order>, received: &Order) -> (r: bool)
    ensures
        r == (contra_book@.len() > 0 && spec_crosses(contra_book@[0], *received)),
{
    if contra_book.len() == 0 {
        return false;
    }
    let booked = &contra_book[0];
    match (booked.order_type, received.order_type) {
        (OrderType::BUY, OrderType::SELL) => booked.price >= received.price,
        (OrderType::SELL, OrderType::BUY) => booked.price <= received.price,
        _ => false,
    }
}

impl MatchingEngine {
    /// Both side books hold only their own side, only positive quantities,
    /// only arrivals older than the counter, and stand in strict price-time
    /// priority order.
    pub open spec fn wf(self) -> bool {
        &&& book_wf(self.buy_order_book@, OrderType::BUY, self.next_instant)
        &&& book_wf(self.sell_order_book@, OrderType::SELL, self.next_instant)
    }

    /// The book an order of side `side` would match against.
    pub open spec fn contra_book_of(self, side: OrderType) -> Seq<Order> {
        match side {
            OrderType::BUY => self.sell_order_book@,
            OrderType::SELL => self.buy_order_book@,
        }
    }

    /// The book an order of side `side` would rest in.
    pub open spec fn own_book_of(self, side: OrderType) -> Seq<Order> {
        match side {
            OrderType::BUY => self.buy_order_book@,
            OrderType::SELL => self.sell_order_book@,
        }
    }

    pub fn new(asset: String) -> (r: MatchingEngine)
        ensures
            r.asset == asset,
            r.buy_order_book@ == Seq::<Order>::empty(),
            r.sell_order_book@ == Seq::<Order>::empty(),
            r.next_instant == 0,
            r.wf(),
    {
        let r = MatchingEngine {
            asset,
            buy_order_book: Vec::new(),
            sell_order_book: Vec::new(),
            next_instant: 0,
        };
        proof {
            assert(r.buy_order_book@ =~= Seq::<Order>::empty());
            assert(r.sell_order_book@ =~= Seq::<Order>::empty());
        }
        r
    }

    pub fn get_asset(&self) -> (r: &String)
        ensures
            r == &self.asset,
    {
        &self.asset
    }

    /// The resting BUY orders in priority order, best (highest) price first.
    pub fn get_buy_order_book(&self) -> (r: &Vec<Order>)
        ensures
            r == &self.buy_order_book,
    {
        &self.buy_order_book
    }

    /// The resting SELL orders in priority order, best (lowest) price first.
    pub fn get_sell_order_book(&self) -> (r: &Vec<Order>)
        ensures
            r == &self.sell_order_book,
    {
        &self.sell_order_book
    }

    /// Matches one resting order against one incoming order. When they cross,
    /// the fill is the smaller of the two quantities at the resting (maker)
    /// order's price; any unfilled part of the incoming order comes back as
    /// `remaining_order`. When they do not cross, nothing executes.
    fn match_order(booked_order: &Order, received_order: &Order) -> (r: OrderMatchResult)
        ensures
            !spec_crosses(*booked_order, *received_order) ==> r.executed_order is None
                && r.remaining_order is None,
            spec_crosses(*booked_order, *received_order) ==> {
                let e = spec_exec_qty(*booked_order, *received_order);
                &&& r.executed_order == Some(
                    Order {
                        order_type: received_order.order_type,
                        quantity: e as u64,
                        price: booked_order.price,
                        instant: received_order.instant,
                    },
                )
                &&& (received_order.quantity > booked_order.quantity ==> r.remaining_order == Some(
                    Order {
                        order_type: received_order.order_type,
                        quantity: (received_order.quantity - e) as u64,
                        price: received_order.price,
                        instant: received_order.instant,
                    },
                ))
                &&& (received_order.quantity <= booked_order.quantity ==> r.remaining_order
                    is None)
            },
    {
        let crossed: bool = match (booked_order.order_type, received_order.order_type) {
            (OrderType::BUY, OrderType::SELL) => booked_order.price >= received_order.price,
            (OrderType::SELL, OrderType::BUY) => booked_order.price <= received_order.price,
            _ => false,
        };
        if !crossed {
            return OrderMatchResult::new(None, None);
        }

        let executed_qty: u64 = if received_order.quantity <= booked_order.quantity {
            received_order.quantity
        } else {
            booked_order.quantity
        };
        let remaining_qty: u64 = received_order.quantity - executed_qty;
        let mut remaining_order: Option<Order> = None;

        if remaining_qty > 0 {
            remaining_order = Some(
                Order::new(
                    received_order.order_type,
                    remaining_qty,
                    received_order.price,
                    received_order.instant,
                ),
            );
        }

        OrderMatchResult::new(
            Some(
                Order::new(
                    received_order.order_type,
                    executed_qty,
                    booked_order.price,
                    received_order.instant,
                ),
            ),
            remaining_order,
        )
    }

    /// Matches `incoming` against `contra_book` until it is exhausted, the
    /// book is exhausted, or the best resting order no longer crosses. Appends
    /// one EXECUTED event per fill to `results` and returns the unfilled
    /// remainder of `incoming`, if any.
    fn match_incoming(
        contra_book: &mut Vec<Order>,
        incoming: Order,
        results: &mut Vec<OrderResult>,
    ) -> (remaining: Option<Order>)
        requires
            book_wf(old(contra_book)@, opposite(incoming.order_type), incoming.instant),
            incoming.quantity > 0,
        ensures
            final(results)@ == old(results)@ + spec_match_events(old(contra_book)@, incoming),
            final(contra_book)@ == spec_match_book(old(contra_book)@, incoming),
            book_wf(final(contra_book)@, opposite(incoming.order_type), incoming.instant),
            ({
                let rem = spec_match_rem(old(contra_book)@, incoming);
                &&& (rem > 0 ==> remaining == Some(Order { quantity: rem as u64, ..incoming }))
                &&& (rem == 0 ==> remaining is None)
            }),
    {
        let ghost orig = contra_book@;
        let ghost results0 = results@;
        let mut cur = incoming;
        while cur.quantity > 0 && front_crosses(contra_book, &cur)
            invariant
                cur.order_type == incoming.order_type,
                cur.price == incoming.price,
                cur.instant == incoming.instant,
                cur.quantity <= incoming.quantity,
                book_wf(contra_book@, opposite(incoming.order_type), incoming.instant),
                spec_match_events(orig, incoming) == results@.skip(results0.len() as int)
                    + spec_match_events(contra_book@, cur),
                spec_match_book(orig, incoming) == spec_match_book(contra_book@, cur),
                spec_match_rem(orig, incoming) == spec_match_rem(contra_book@, cur),
                results0.len() <= results@.len(),
                results0 == results@.take(results0.len() as int),
            decreases contra_book@.len(), cur.quantity,
        {
            let ghost prev = contra_book@;
            let ghost prev_cur = cur;
            let ghost prev_results = results@;

            let booked: Order = contra_book[0];
            let match_result = MatchingEngine::match_order(&booked, &cur);
            let executed: Order = match match_result.executed_order {
                Some(executed) => executed,
                None => {
                    // unreachable: the loop condition established the cross
                    proof {
                        assert(false);
                    }
                    booked
                },
            };

            contra_book.remove(0);
            if executed.quantity < booked.quantity {
                let reduced = Order::new(
                    booked.order_type,
                    booked.quantity - executed.quantity,
                    booked.price,
                    booked.instant,
                );
                contra_book.insert(0, reduced);
            }

            let result = OrderResult::new(
                OrderResultType::EXECUTED,
                executed.order_type,
                executed.quantity,
                executed.price,
            );
            results.push(result);
            cur = Order::new(cur.order_type, cur.quantity - executed.quantity, cur.price, cur.instant);

            proof {
                let e = spec_exec_qty(prev[0], prev_cur);
                let ghost_next = Order { quantity: (prev_cur.quantity - e) as u64, ..prev_cur };
                assert(cur == ghost_next);
                let ev = OrderResult {
                    result_type: OrderResultType::EXECUTED,
                    order_type: prev_cur.order_type,
                    quantity: e as u64,
                    price: prev[0].price,
                };
                assert(result == ev);
                assert(spec_match_events(prev, prev_cur) == seq![ev] + spec_match_events(
                    prev.drop_first(),
                    ghost_next,
                ));

                if executed.quantity < booked.quantity {
                    // the head was only partially consumed: it stays, reduced
                    let reduced = Order { quantity: (prev[0].quantity - e) as u64, ..prev[0] };
                    assert(contra_book@ =~= seq![reduced] + prev.drop_first());
                    assert(cur.quantity == 0);
                    assert(spec_match_book(prev, prev_cur) == contra_book@);
                    assert(spec_match_book(contra_book@, cur) == contra_book@);
                    assert(spec_match_events(contra_book@, cur) =~= Seq::<OrderResult>::empty());
                    assert(spec_match_rem(contra_book@, cur) == 0);
                    assert(ghost_next.quantity == 0);
                    assert(spec_match_rem(prev.drop_first(), ghost_next) == 0);
                    assert(spec_match_rem(prev, prev_cur) == 0);
                    // the reduced head outranks exactly what the old head outranked
                    assert forall|i: int, j: int|
                        0 <= i < j < contra_book@.len() implies crate::book::comes_before(
                        contra_book@[i],
                        contra_book@[j],
                    ) by {
                        if i == 0 {
                            assert(crate::book::comes_before(prev[0], prev[j]));
                        } else {
                            assert(contra_book@[i] == prev[i] && contra_book@[j] == prev[j]);
                        }
                    }
                    assert forall|i: int|
                        0 <= i < contra_book@.len() implies (#[trigger] contra_book@[i]).order_type
                        == opposite(incoming.order_type) && contra_book@[i].quantity > 0
                        && contra_book@[i].instant < incoming.instant by {
                        if i > 0 {
                            assert(contra_book@[i] == prev[i]);
                        }
                    }
                } else {
                    // the head was fully consumed and removed
                    assert(contra_book@ =~= prev.drop_first());
                    assert(spec_match_book(prev, prev_cur) == spec_match_book(contra_book@, cur));
                    assert(spec_match_rem(prev, prev_cur) == spec_match_rem(contra_book@, cur));
                    assert forall|i: int, j: int|
                        0 <= i < j < contra_book@.len() implies crate::book::comes_before(
                        contra_book@[i],
                        contra_book@[j],
                    ) by {
                        assert(contra_book@[i] == prev[i + 1] && contra_book@[j] == prev[j + 1]);
                    }
                    assert forall|i: int|
                        0 <= i < contra_book@.len() implies (#[trigger] contra_book@[i]).order_type
                        == opposite(incoming.order_type) && contra_book@[i].quantity > 0
                        && contra_book@[i].instant < incoming.instant by {
                        assert(contra_book@[i] == prev[i + 1]);
                    }
                }

                // the event stream so far plus what is left to produce is unchanged
                assert(results@ =~= prev_results.push(ev));
                assert(results@.skip(results0.len() as int) =~= prev_results.skip(
                    results0.len() as int,
                ).push(ev));
                assert(prev_results.skip(results0.len() as int) + (seq![ev] + spec_match_events(
                    prev.drop_first(),
                    ghost_next,
                )) =~= prev_results.skip(results0.len() as int).push(ev) + spec_match_events(
                    prev.drop_first(),
                    ghost_next,
                ));
                assert(results@.take(results0.len() as int) =~= prev_results.take(
                    results0.len() as int,
                ));
            }
        }

        proof {
            assert(spec_match_events(contra_book@, cur) =~= Seq::<OrderResult>::empty());
            assert(spec_match_book(contra_book@, cur) == contra_book@);
            assert(spec_match_rem(contra_book@, cur) == cur.quantity);
            assert(results@ =~= results@.take(results0.len() as int) + results@.skip(
                results0.len() as int,
            ));
        }
        if cur.quantity > 0 {
            Some(cur)
        } else {
            None
        }
    }

    /// Processes one incoming limit order: stamps it with the next arrival
    /// number, fills it against the contra book in price-time priority while
    /// it crosses, and rests any remainder in its own side's book. Returns the
    /// full result stream: zero or more EXECUTED events in match order,
    /// followed by at most one QUEUED event for the remainder.
    pub fn add_order(&mut self, order_type: OrderType, quantity: u64, price: u64) -> (results: Vec<
        OrderResult,
    >)
        requires
            old(self).wf(),
            quantity > 0,
            old(self).next_instant < u64::MAX,
        ensures
            final(self).wf(),
            final(self).asset == old(self).asset,
            final(self).next_instant == old(self).next_instant + 1,
            ({
                let inc = Order { order_type, quantity, price, instant: old(self).next_instant };
                let contra = old(self).contra_book_of(order_type);
                let own = old(self).own_book_of(order_type);
                let events = spec_match_events(contra, inc);
                let rem = spec_match_rem(contra, inc);
                &&& final(self).contra_book_of(order_type) == spec_match_book(contra, inc)
                &&& (rem > 0 ==> {
                    let left = Order { quantity: rem as u64, ..inc };
                    &&& results@ == events.push(
                        OrderResult {
                            result_type: OrderResultType::QUEUED,
                            order_type,
                            quantity: rem as u64,
                            price,
                        },
                    )
                    &&& final(self).own_book_of(order_type) == own.insert(
                        spec_insert_pos(own, left),
                        left,
                    )
                })
                &&& (rem == 0 ==> results@ == events && final(self).own_book_of(order_type) == own)
            }),
            results@.len() >= 1,
            sum_quantities(results@) == quantity,
            forall|k: int|
                0 <= k < results@.len() ==> (#[trigger] results@[k]).order_type == order_type,
            forall|k: int|
                0 <= k < results@.len() - 1 ==> (#[trigger] results@[k]).result_type
                    == OrderResultType::EXECUTED,
    {
        let instant = self.next_instant;
        self.next_instant = instant + 1;
        let order = Order::new(order_type, quantity, price, instant);
        let mut results: Vec<OrderResult> = Vec::new();

        proof {
            lemma_conservation(old(self).contra_book_of(order_type), order);
            crate::laws::lemma_price_improvement(old(self).contra_book_of(order_type), order);
        }

        match order_type {
            OrderType::BUY => {
                let remaining = MatchingEngine::match_incoming(
                    &mut self.sell_order_book,
                    order,
                    &mut results,
                );
                match remaining {
                    Some(left) => {
                        enqueue_order(&mut self.buy_order_book, &left, &mut results);
                        proof {
                            lemma_sum_push(
                                spec_match_events(old(self).sell_order_book@, order),
                                results@.last(),
                            );
                            lemma_book_wf_widen(
                                self.sell_order_book@,
                                OrderType::SELL,
                                instant,
                                self.next_instant,
                            );
                        }
                    },
                    None => {
                        proof {
                            lemma_book_wf_widen(
                                self.sell_order_book@,
                                OrderType::SELL,
                                instant,
                                self.next_instant,
                            );
                            lemma_book_wf_widen(
                                self.buy_order_book@,
                                OrderType::BUY,
                                instant,
                                self.next_instant,
                            );
                            if results@.len() == 0 {
                                assert(sum_quantities(results@) == 0);
                                assert(false);
                            }
                        }
                    },
                }
            },
            OrderType::SELL => {
                let remaining = MatchingEngine::match_incoming(
                    &mut self.buy_order_book,
                    order,
                    &mut results,
                );
                match remaining {
                    Some(left) => {
                        enqueue_order(&mut self.sell_order_book, &left, &mut results);
                        proof {
                            lemma_sum_push(
                                spec_match_events(old(self).buy_order_book@, order),
                                results@.last(),
                            );
                            lemma_book_wf_widen(
                                self.buy_order_book@,
                                OrderType::BUY,
                                instant,
                                self.next_instant,
                            );
                        }
                    },
                    None => {
                        proof {
                            lemma_book_wf_widen(
                                self.buy_order_book@,
                                OrderType::BUY,
                                instant,
                                self.next_instant,
                            );
                            lemma_book_wf_widen(
                                self.sell_order_book@,
                                OrderType::SELL,
                                instant,
                                self.next_instant,
                            );
                            if results@.len() == 0 {
                                assert(sum_quantities(results@) == 0);
                                assert(false);
                            }
                        }
                    },
                }
            },
        }
        results
    }
}

} // verus!
