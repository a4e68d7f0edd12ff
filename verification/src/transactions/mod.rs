//! Building transactions: choosing the outputs to spend, and locking them.
pub mod fund_locker;
pub mod input_selector;
pub mod laws;
pub mod request_laws;
