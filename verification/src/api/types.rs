//! The results that clients of the wallet see.
use crate::models::MicroMinotari;
use crate::wallet_output::{WalletOutput, WalletOutputFacts};
use vstd::prelude::*;

verus! {

/// The funds that are locked for a pending transaction.
#[derive(Debug)]
pub struct LockFundsResult {
    /// The outputs that are locked.
    pub utxos: Vec<WalletOutput>,
    /// Whether the transaction needs an output that gives change back.
    pub requires_change_output: bool,
    /// What the locked outputs are worth together.
    pub total_value: MicroMinotari,
    /// The fee where no change is given.
    pub fee_without_change: MicroMinotari,
    /// The fee where change is given.
    pub fee_with_change: MicroMinotari,
}

/// What a [`LockFundsResult`] says.
#[verifier::ext_equal]
pub ghost struct LockFundsFacts {
    pub utxos: Seq<WalletOutputFacts>,
    pub requires_change_output: bool,
    pub total_value: MicroMinotari,
    pub fee_without_change: MicroMinotari,
    pub fee_with_change: MicroMinotari,
}

impl View for LockFundsResult {
    type V = LockFundsFacts;

    open spec fn view(&self) -> LockFundsFacts {
        LockFundsFacts {
            utxos: self.utxos@.map_values(|o: WalletOutput| o@),
            requires_change_output: self.requires_change_output,
            total_value: self.total_value,
            fee_without_change: self.fee_without_change,
            fee_with_change: self.fee_with_change,
        }
    }
}

} // verus!
