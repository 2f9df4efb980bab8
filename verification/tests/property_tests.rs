//! Concrete checks of the library's stated properties and edge cases.
//! Prices are in ticks of one hundredth.

use matching_engine::engine::MatchingEngine;
use matching_engine::order_result::side_from_code;
use matching_engine::order_result::OrderResult;
use matching_engine::order_result::OrderResultType;
use matching_engine::order_result::OrderType;

#[test]
fn test_side_from_code() {
    assert_eq!(side_from_code(0), Some(OrderType::BUY));
    assert_eq!(side_from_code(1), Some(OrderType::SELL));
    assert_eq!(side_from_code(2), None);
    assert_eq!(side_from_code(-1), None);
}

#[test]
fn test_ask_book_price_ascending() {
    let mut engine = MatchingEngine::new(String::from("QWERTY"));
    engine.add_order(OrderType::SELL, 10, 5100);
    engine.add_order(OrderType::SELL, 20, 4900);
    engine.add_order(OrderType::SELL, 30, 5000);

    let book = engine.get_sell_order_book();
    assert_eq!(book.len(), 3);
    assert_eq!(book[0].price, 4900);
    assert_eq!(book[1].price, 5000);
    assert_eq!(book[2].price, 5100);
}

#[test]
fn test_bid_book_price_descending() {
    let mut engine = MatchingEngine::new(String::from("QWERTY"));
    engine.add_order(OrderType::BUY, 10, 4900);
    engine.add_order(OrderType::BUY, 20, 5100);
    engine.add_order(OrderType::BUY, 30, 5000);

    // the best (highest) bid stands first
    let book = engine.get_buy_order_book();
    assert_eq!(book.len(), 3);
    assert_eq!(book[0].price, 5100);
    assert_eq!(book[1].price, 5000);
    assert_eq!(book[2].price, 4900);
}

#[test]
fn test_multi_level_bid_matching() {
    let mut engine = MatchingEngine::new(String::from("QWERTY"));
    engine.add_order(OrderType::BUY, 100, 5100);
    engine.add_order(OrderType::BUY, 100, 5000);

    // a sell for 150 fills the best bid whole, then half of the next one
    let results: Vec<OrderResult> = engine.add_order(OrderType::SELL, 150, 4900);
    assert_eq!(results.len(), 2);
    assert_eq!(results[0].result_type, OrderResultType::EXECUTED);
    assert_eq!(results[0].order_type, OrderType::SELL);
    assert_eq!(results[0].quantity, 100);
    assert_eq!(results[0].price, 5100);
    assert_eq!(results[1].result_type, OrderResultType::EXECUTED);
    assert_eq!(results[1].quantity, 50);
    assert_eq!(results[1].price, 5000);

    let book = engine.get_buy_order_book();
    assert_eq!(book.len(), 1);
    assert_eq!(book[0].quantity, 50);
    assert_eq!(book[0].price, 5000);
}

#[test]
fn test_execution_at_maker_price() {
    let mut engine = MatchingEngine::new(String::from("QWERTY"));
    // maker bids 51.00; taker asks only 49.00 and still trades at 51.00
    engine.add_order(OrderType::BUY, 100, 5100);
    let results: Vec<OrderResult> = engine.add_order(OrderType::SELL, 100, 4900);
    assert_eq!(results.len(), 1);
    assert_eq!(results[0].result_type, OrderResultType::EXECUTED);
    assert_eq!(results[0].price, 5100);
    assert!(engine.get_buy_order_book().is_empty());
    assert!(engine.get_sell_order_book().is_empty());
}

#[test]
fn test_quantity_conserved_with_remainder() {
    let mut engine = MatchingEngine::new(String::from("QWERTY"));
    engine.add_order(OrderType::BUY, 100, 5000);

    // 300 in: 100 executed plus 200 queued
    let results: Vec<OrderResult> = engine.add_order(OrderType::SELL, 300, 5000);
    assert_eq!(results.len(), 2);
    assert_eq!(results[0].result_type, OrderResultType::EXECUTED);
    assert_eq!(results[0].quantity, 100);
    assert_eq!(results[1].result_type, OrderResultType::QUEUED);
    assert_eq!(results[1].quantity, 200);
    assert_eq!(results[0].quantity + results[1].quantity, 300);

    let book = engine.get_sell_order_book();
    assert_eq!(book.len(), 1);
    assert_eq!(book[0].quantity, 200);
    assert_eq!(book[0].price, 5000);
}

#[test]
fn test_time_priority_on_bid_side() {
    let mut engine = MatchingEngine::new(String::from("QWERTY"));
    engine.add_order(OrderType::BUY, 100, 5000);
    engine.add_order(OrderType::BUY, 200, 5000);

    // equal price: the earlier bid stands first and fills first
    assert_eq!(engine.get_buy_order_book()[0].quantity, 100);
    assert_eq!(engine.get_buy_order_book()[1].quantity, 200);

    engine.add_order(OrderType::SELL, 50, 5000);
    assert_eq!(engine.get_buy_order_book()[0].quantity, 50);
    assert_eq!(engine.get_buy_order_book()[1].quantity, 200);
}

#[test]
fn test_empty_book_first_order_queued() {
    let mut engine = MatchingEngine::new(String::from("QWERTY"));
    let results: Vec<OrderResult> = engine.add_order(OrderType::SELL, 1, 1);
    assert_eq!(results.len(), 1);
    assert_eq!(results[0].result_type, OrderResultType::QUEUED);
    assert_eq!(results[0].quantity, 1);
    assert_eq!(results[0].price, 1);
    assert_eq!(engine.get_sell_order_book().len(), 1);
}

#[test]
fn test_largest_quantity_full_fill() {
    let mut engine = MatchingEngine::new(String::from("QWERTY"));
    engine.add_order(OrderType::BUY, u64::MAX, 5000);
    let results: Vec<OrderResult> = engine.add_order(OrderType::SELL, u64::MAX, 5000);
    assert_eq!(results.len(), 1);
    assert_eq!(results[0].result_type, OrderResultType::EXECUTED);
    assert_eq!(results[0].quantity, u64::MAX);
    assert!(engine.get_buy_order_book().is_empty());
    assert!(engine.get_sell_order_book().is_empty());
}
