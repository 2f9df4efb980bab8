//! The engine's behavior on concrete order flows. Prices are in ticks of one
//! hundredth, so 9.90 is written 990 and 50.01 is written 5001.

use matching_engine::engine::MatchingEngine;
use matching_engine::order_result::OrderResult;
use matching_engine::order_result::OrderResultType;
use matching_engine::order_result::OrderType;

#[test]
fn test_simple_order() {
    let mut engine = MatchingEngine::new(String::from("QWERTY"));
    assert_eq!(engine.get_asset().clone(), String::from("QWERTY"));

    let buy_order_results: Vec<OrderResult> = engine.add_order(OrderType::BUY, 100, 990);
    assert_eq!(buy_order_results.len(), 1);
    let buy_result: &OrderResult = &buy_order_results[0];
    assert_eq!(buy_result.result_type, OrderResultType::QUEUED);
    assert_eq!(buy_result.order_type, OrderType::BUY);
    assert_eq!(buy_result.quantity, 100);
    assert_eq!(buy_result.price, 990);

    let sell_order_results: Vec<OrderResult> = engine.add_order(OrderType::SELL, 100, 990);
    assert_eq!(sell_order_results.len(), 1);
    let sell_result: &OrderResult = &sell_order_results[0];
    assert_eq!(sell_result.result_type, OrderResultType::EXECUTED);
    assert_eq!(sell_result.order_type, OrderType::SELL);
    assert_eq!(sell_result.quantity, 100);
    assert_eq!(sell_result.price, 990);
}

#[test]
fn test_cheapest_price() {
    let mut engine = MatchingEngine::new(String::from("QWERTY"));

    // sell 1000 units at 50.00
    engine.add_order(OrderType::SELL, 1000, 5000);
    // buy 100 units at 51.00
    engine.add_order(OrderType::BUY, 100, 5100);
    // sell 200 units at 49.00
    engine.add_order(OrderType::SELL, 200, 4900);

    // first order from the book is the cheapest price
    assert_eq!(engine.get_sell_order_book()[0].quantity, 200);
    assert_eq!(engine.get_sell_order_book()[0].price, 4900);
    assert_eq!(engine.get_sell_order_book()[1].quantity, 900);
    assert_eq!(engine.get_sell_order_book()[1].price, 5000);

    // buy 200 units at 49.00 and 100 units at 50.00
    let buy_order_results: Vec<OrderResult> = engine.add_order(OrderType::BUY, 300, 5200);

    assert_eq!(buy_order_results.len(), 2);
    let first_execution: &OrderResult = &buy_order_results[0];
    assert_eq!(first_execution.result_type, OrderResultType::EXECUTED);
    assert_eq!(first_execution.order_type, OrderType::BUY);
    assert_eq!(first_execution.quantity, 200);
    assert_eq!(first_execution.price, 4900);

    let second_execution: &OrderResult = &buy_order_results[1];
    assert_eq!(second_execution.result_type, OrderResultType::EXECUTED);
    assert_eq!(second_execution.order_type, OrderType::BUY);
    assert_eq!(second_execution.quantity, 100);
    assert_eq!(second_execution.price, 5000);

    assert_eq!(engine.get_sell_order_book().len(), 1);
    assert_eq!(engine.get_sell_order_book()[0].quantity, 800);
    assert_eq!(engine.get_sell_order_book()[0].price, 5000);
}

#[test]
fn test_first_comes_first() {
    let mut engine = MatchingEngine::new(String::from("QWERTY"));

    // sell 1000 units at 50.00
    engine.add_order(OrderType::SELL, 1000, 5000);
    // buy 100 units at 51.00
    engine.add_order(OrderType::BUY, 100, 5100);
    // sell 200 units at 50.00
    engine.add_order(OrderType::SELL, 200, 5000);

    // first order from the book is the one that arrived first
    assert_eq!(engine.get_sell_order_book()[0].quantity, 900);
    assert_eq!(engine.get_sell_order_book()[1].quantity, 200);

    // buy 200 units at 50.00
    let buy_order_results: Vec<OrderResult> = engine.add_order(OrderType::BUY, 200, 5200);

    assert_eq!(buy_order_results.len(), 1);
    let first_execution: &OrderResult = &buy_order_results[0];
    assert_eq!(first_execution.result_type, OrderResultType::EXECUTED);
    assert_eq!(first_execution.order_type, OrderType::BUY);
    assert_eq!(first_execution.quantity, 200);
    assert_eq!(first_execution.price, 5000);

    assert_eq!(engine.get_sell_order_book()[0].quantity, 700);
    assert_eq!(engine.get_sell_order_book()[1].quantity, 200);
}

#[test]
fn test_partial_execution() {
    let mut engine = MatchingEngine::new(String::from("QWERTY"));

    // buy 100 units at 51.00
    engine.add_order(OrderType::BUY, 100, 5100);

    // sell 1000 units at 50.00
    engine.add_order(OrderType::SELL, 1000, 5000);

    assert_eq!(engine.get_sell_order_book()[0].quantity, 900);
    assert_eq!(engine.get_sell_order_book().len(), 1);
    assert_eq!(engine.get_buy_order_book().len(), 0);
}

#[test]
fn test_not_executed() {
    let mut engine = MatchingEngine::new(String::from("QWERTY"));

    // buy 100 units at 50.00
    engine.add_order(OrderType::BUY, 100, 5000);

    // sell 1000 units at 50.01
    engine.add_order(OrderType::SELL, 1000, 5001);

    assert_eq!(engine.get_sell_order_book().len(), 1);
    assert_eq!(engine.get_buy_order_book().len(), 1);
    assert_eq!(engine.get_sell_order_book()[0].quantity, 1000);
    assert_eq!(engine.get_buy_order_book()[0].quantity, 100);
}
