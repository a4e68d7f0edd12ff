//! Outputs of a wallet: the table that holds them, the queries on it, and the locking of funds
//! for pending transactions.
pub mod amounts;
pub mod api;
pub mod bindings;
pub mod db;
pub mod models;
pub mod transactions;
pub mod wallet_output;
