//! A single-asset continuous limit order book matching engine.
//!
//! The engine accepts buy and sell limit orders and decides, deterministically
//! and in arrival order, which orders execute immediately, which execute
//! partially, and which rest in a side book awaiting a future counter-order.
//! Resting orders are kept in strict price-time priority; executions happen at
//! the resting (maker) order's price.
//!
//! Prices are plain integers counted in ticks (the smallest price increment of
//! the instrument); arrival order is a plain monotonically increasing sequence
//! number. Callers that deal in decimal prices convert them to ticks at the
//! boundary.

pub mod book;
pub mod engine;
pub mod laws;
pub mod matching;
pub mod order;
pub mod order_match_result;
pub mod order_result;

pub use engine::MatchingEngine;
pub use order::Order;
pub use order_match_result::OrderMatchResult;
pub use order_result::OrderResult;
pub use order_result::OrderResultType;
pub use order_result::OrderType;
