//! What the order-entry API decides around the engine: which asset a request
//! names, which command it becomes, and what the caller is told.

pub mod trade_add_order;
pub mod user_get;
