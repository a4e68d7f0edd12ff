//! What the wallet hands to its clients.
pub mod types;
