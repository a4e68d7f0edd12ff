//! The outputs that a wallet owns, as far as the wallet's own logic reads them.
use crate::bindings::{decode_wallet_output, decoded_wallet_output};
use crate::db::error::WalletDbError;
use crate::models::{FixedHash, MicroMinotari};
use vstd::prelude::*;

verus! {

/// An output that the wallet owns: its full form as JSON text, and the parts of it that decide
/// where it is stored and when it can be spent.
#[derive(Debug)]
pub struct WalletOutput {
    pub json: String,
    pub value: MicroMinotari,
    pub maturity: u64,
    pub output_hash: FixedHash,
}

/// What a [`WalletOutput`] says.
#[verifier::ext_equal]
pub ghost struct WalletOutputFacts {
    pub json: Seq<char>,
    pub value: MicroMinotari,
    pub maturity: u64,
    pub output_hash: Seq<u8>,
}

impl View for WalletOutput {
    type V = WalletOutputFacts;

    open spec fn view(&self) -> WalletOutputFacts {
        WalletOutputFacts {
            json: self.json@,
            value: self.value,
            maturity: self.maturity,
            output_hash: self.output_hash@,
        }
    }
}

impl WalletOutputFacts {
    /// Whether the parts are those that the JSON text gives.
    pub open spec fn wf(self) -> bool {
        decoded_wallet_output(self.json) == Some((self.value.0, self.maturity, self.output_hash))
    }
}

/// The output that a JSON text stands for, where it stands for one.
pub open spec fn wallet_output_of(json: Seq<char>) -> WalletOutputFacts {
    let parts = decoded_wallet_output(json).unwrap();
    WalletOutputFacts {
        json,
        value: MicroMinotari(parts.0),
        maturity: parts.1,
        output_hash: parts.2,
    }
}

impl WalletOutput {
    /// Decodes an output from its JSON text.
    pub fn from_json(json: &str) -> (r: Result<WalletOutput, WalletDbError>)
        ensures
            match r {
                Ok(output) => {
                    &&& decoded_wallet_output(json@) is Some
                    &&& output@ == wallet_output_of(json@)
                    &&& output@.wf()
                },
                Err(WalletDbError::Json(_)) => decoded_wallet_output(json@) is None,
                Err(_) => false,
            },
    {
        match decode_wallet_output(json) {
            Ok((value, maturity, output_hash)) => Ok(
                WalletOutput::from_parts(json.to_owned(), value, maturity, output_hash),
            ),
            Err(e) => Err(WalletDbError::Json(e)),
        }
    }

    /// Puts an output together from its JSON text and the parts that were read off it.
    pub fn from_parts(
        json: String,
        value: MicroMinotari,
        maturity: u64,
        output_hash: FixedHash,
    ) -> (r: WalletOutput)
        ensures
            r@ == (WalletOutputFacts { json: json@, value, maturity, output_hash: output_hash@ }),
    {
        WalletOutput { json, value, maturity, output_hash }
    }

    pub fn value(&self) -> (r: MicroMinotari)
        ensures
            r == self@.value,
    {
        self.value
    }

    pub fn output_hash(&self) -> (r: FixedHash)
        ensures
            r@ == self@.output_hash,
    {
        self.output_hash
    }
}

impl Clone for WalletOutput {
    fn clone(&self) -> (r: Self)
        ensures
            r@ == self@,
    {
        WalletOutput::from_parts(
            self.json.clone(),
            self.value,
            self.maturity,
            self.output_hash,
        )
    }
}

/// Wallet outputs are compared by what they are worth.
impl PartialEq for WalletOutput {
    fn eq(&self, other: &Self) -> (r: bool) {
        self.value == other.value
    }
}

impl vstd::std_specs::cmp::PartialEqSpecImpl for WalletOutput {
    open spec fn obeys_eq_spec() -> bool {
        true
    }

    open spec fn eq_spec(&self, other: &Self) -> bool {
        self.value == other.value
    }
}

impl Eq for WalletOutput {

}

} // verus!
