//! The errors of the queries.
use vstd::prelude::*;

verus! {

/// Why a query failed.
#[derive(Debug)]
pub enum WalletDbError {
    /// A value cannot be turned into its column value; the text says which.
    Decoding(String),
    /// A row is not as the query needs it; the text says how.
    Unexpected(String),
    /// The JSON text of an output cannot be decoded.
    Json(serde_json::Error),
    /// A column that the query reads holds no value.
    NullColumn,
    /// A hash column holds fewer bytes than a hash has.
    ShortHash,
    /// A sum of values leaves the range of the column type.
    IntegerOverflow,
    /// A sum of values is negative, where an amount is asked for.
    ValueOutOfRange(i64),
    /// No further row id is left in the table.
    TableFull,
}

pub type WalletDbResult<T> = Result<T, WalletDbError>;

} // verus!
