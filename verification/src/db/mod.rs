//! The wallet's tables and the queries on them.
pub mod balance_changes;
pub mod error;
pub mod laws;
pub mod outputs;
pub mod pending_transactions;
pub mod query;
pub mod query_laws;
pub mod scanned_tip_blocks;
pub mod tables;
pub mod update_laws;
