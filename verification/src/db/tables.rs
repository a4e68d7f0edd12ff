//! The wallet's tables, held in memory.
use crate::models::{bytes, text, FixedHash, MicroMinotari, OutputStatus, UtcTime};
use vstd::prelude::*;

verus! {

/// A row of the outputs table.
#[derive(Debug)]
pub struct OutputRow {
    pub id: i64,
    pub account_id: i64,
    pub tx_id: i64,
    pub output_hash: Vec<u8>,
    pub mined_in_block_height: i64,
    pub mined_in_block_hash: Vec<u8>,
    pub value: i64,
    pub created_at: UtcTime,
    pub mined_timestamp: UtcTime,
    pub wallet_output_json: Option<String>,
    pub memo_parsed: Option<String>,
    pub memo_hex: Option<String>,
    pub payment_reference: Option<String>,
    pub is_burn: bool,
    pub maturity: i64,
    pub status: OutputStatus,
    pub confirmed_height: Option<i64>,
    pub confirmed_hash: Option<Vec<u8>>,
    pub locked_at: Option<UtcTime>,
    pub locked_by_request_id: Option<String>,
    pub deleted_at: Option<UtcTime>,
    pub deleted_in_block_height: Option<i64>,
}

/// What a row of the outputs table says.
#[verifier::ext_equal]
pub ghost struct OutputRecord {
    pub id: i64,
    pub account_id: i64,
    pub tx_id: i64,
    pub output_hash: Seq<u8>,
    pub mined_in_block_height: i64,
    pub mined_in_block_hash: Seq<u8>,
    pub value: i64,
    pub created_at: UtcTime,
    pub mined_timestamp: UtcTime,
    pub wallet_output_json: Option<Seq<char>>,
    pub memo_parsed: Option<Seq<char>>,
    pub memo_hex: Option<Seq<char>>,
    pub payment_reference: Option<Seq<char>>,
    pub is_burn: bool,
    pub maturity: i64,
    pub status: OutputStatus,
    pub confirmed_height: Option<i64>,
    pub confirmed_hash: Option<Seq<u8>>,
    pub locked_at: Option<UtcTime>,
    pub locked_by_request_id: Option<Seq<char>>,
    pub deleted_at: Option<UtcTime>,
    pub deleted_in_block_height: Option<i64>,
}

impl View for OutputRow {
    type V = OutputRecord;

    open spec fn view(&self) -> OutputRecord {
        OutputRecord {
            id: self.id,
            account_id: self.account_id,
            tx_id: self.tx_id,
            output_hash: self.output_hash@,
            mined_in_block_height: self.mined_in_block_height,
            mined_in_block_hash: self.mined_in_block_hash@,
            value: self.value,
            created_at: self.created_at,
            mined_timestamp: self.mined_timestamp,
            wallet_output_json: text(self.wallet_output_json),
            memo_parsed: text(self.memo_parsed),
            memo_hex: text(self.memo_hex),
            payment_reference: text(self.payment_reference),
            is_burn: self.is_burn,
            maturity: self.maturity,
            status: self.status,
            confirmed_height: self.confirmed_height,
            confirmed_hash: bytes(self.confirmed_hash),
            locked_at: self.locked_at,
            locked_by_request_id: text(self.locked_by_request_id),
            deleted_at: self.deleted_at,
            deleted_in_block_height: self.deleted_in_block_height,
        }
    }
}

/// One entry of the ledger of changes to an account's balance.
#[derive(Debug)]
pub struct BalanceChange {
    pub account_id: i64,
    pub caused_by_output_id: Option<i64>,
    pub caused_by_input_id: Option<i64>,
    pub description: String,
    pub balance_credit: MicroMinotari,
    pub balance_debit: MicroMinotari,
    pub effective_date: UtcTime,
    pub effective_height: u64,
    pub claimed_recipient_address: Option<String>,
    pub claimed_sender_address: Option<String>,
    pub memo_parsed: Option<String>,
    pub memo_hex: Option<String>,
    pub claimed_fee: Option<MicroMinotari>,
    pub claimed_amount: Option<MicroMinotari>,
    pub is_reversal: bool,
    pub reversal_of_balance_change_id: Option<i64>,
    pub is_reversed: bool,
}

/// What an entry of the ledger says.
#[verifier::ext_equal]
pub ghost struct ChangeRecord {
    pub account_id: i64,
    pub caused_by_output_id: Option<i64>,
    pub caused_by_input_id: Option<i64>,
    pub description: Seq<char>,
    pub balance_credit: MicroMinotari,
    pub balance_debit: MicroMinotari,
    pub effective_date: UtcTime,
    pub effective_height: u64,
    pub claimed_recipient_address: Option<Seq<char>>,
    pub claimed_sender_address: Option<Seq<char>>,
    pub memo_parsed: Option<Seq<char>>,
    pub memo_hex: Option<Seq<char>>,
    pub claimed_fee: Option<MicroMinotari>,
    pub claimed_amount: Option<MicroMinotari>,
    pub is_reversal: bool,
    pub reversal_of_balance_change_id: Option<i64>,
    pub is_reversed: bool,
}

impl View for BalanceChange {
    type V = ChangeRecord;

    open spec fn view(&self) -> ChangeRecord {
        ChangeRecord {
            account_id: self.account_id,
            caused_by_output_id: self.caused_by_output_id,
            caused_by_input_id: self.caused_by_input_id,
            description: self.description@,
            balance_credit: self.balance_credit,
            balance_debit: self.balance_debit,
            effective_date: self.effective_date,
            effective_height: self.effective_height,
            claimed_recipient_address: text(self.claimed_recipient_address),
            claimed_sender_address: text(self.claimed_sender_address),
            memo_parsed: text(self.memo_parsed),
            memo_hex: text(self.memo_hex),
            claimed_fee: self.claimed_fee,
            claimed_amount: self.claimed_amount,
            is_reversal: self.is_reversal,
            reversal_of_balance_change_id: self.reversal_of_balance_change_id,
            is_reversed: self.is_reversed,
        }
    }
}

/// A row of the balance changes table.
#[derive(Debug)]
pub struct BalanceChangeRow {
    pub id: i64,
    pub change: BalanceChange,
}

impl View for BalanceChangeRow {
    type V = (i64, ChangeRecord);

    open spec fn view(&self) -> (i64, ChangeRecord) {
        (self.id, self.change@)
    }
}

/// A row of the pending transactions table: a transaction that is being built, and for which
/// outputs are locked.
#[derive(Debug)]
pub struct PendingTransaction {
    pub id: String,
    pub idempotency_key: String,
    pub account_id: i64,
    pub requires_change_output: bool,
    pub total_value: MicroMinotari,
    pub fee_without_change: MicroMinotari,
    pub fee_with_change: MicroMinotari,
    pub expires_at: UtcTime,
}

/// What a row of the pending transactions table says.
#[verifier::ext_equal]
pub ghost struct PendingRecord {
    pub id: Seq<char>,
    pub idempotency_key: Seq<char>,
    pub account_id: i64,
    pub requires_change_output: bool,
    pub total_value: MicroMinotari,
    pub fee_without_change: MicroMinotari,
    pub fee_with_change: MicroMinotari,
    pub expires_at: UtcTime,
}

impl View for PendingTransaction {
    type V = PendingRecord;

    open spec fn view(&self) -> PendingRecord {
        PendingRecord {
            id: self.id@,
            idempotency_key: self.idempotency_key@,
            account_id: self.account_id,
            requires_change_output: self.requires_change_output,
            total_value: self.total_value,
            fee_without_change: self.fee_without_change,
            fee_with_change: self.fee_with_change,
            expires_at: self.expires_at,
        }
    }
}

/// A block that the scan of an account's chain has reached.
#[derive(Debug)]
pub struct ScannedTipBlock {
    pub account_id: i64,
    pub height: u64,
    pub hash: FixedHash,
}

/// The wallet's tables. The rows of each table stand in the order of their ids.
#[derive(Debug)]
pub struct WalletDb {
    pub outputs: Vec<OutputRow>,
    pub balance_changes: Vec<BalanceChangeRow>,
    pub pending_transactions: Vec<PendingTransaction>,
    pub scanned_tip_blocks: Vec<ScannedTipBlock>,
}

/// What the wallet's tables say.
#[verifier::ext_equal]
pub ghost struct WalletState {
    pub outputs: Seq<OutputRecord>,
    pub balance_changes: Seq<(i64, ChangeRecord)>,
    pub pending_transactions: Seq<PendingRecord>,
    pub scanned_tip_blocks: Seq<ScannedTipBlock>,
}

pub open spec fn output_records(rows: Seq<OutputRow>) -> Seq<OutputRecord> {
    rows.map_values(|r: OutputRow| r@)
}

pub open spec fn change_records(rows: Seq<BalanceChangeRow>) -> Seq<(i64, ChangeRecord)> {
    rows.map_values(|r: BalanceChangeRow| r@)
}

pub open spec fn pending_records(rows: Seq<PendingTransaction>) -> Seq<PendingRecord> {
    rows.map_values(|r: PendingTransaction| r@)
}

impl View for WalletDb {
    type V = WalletState;

    open spec fn view(&self) -> WalletState {
        WalletState {
            outputs: output_records(self.outputs@),
            balance_changes: change_records(self.balance_changes@),
            pending_transactions: pending_records(self.pending_transactions@),
            scanned_tip_blocks: self.scanned_tip_blocks@,
        }
    }
}

/// Whether the ids of the outputs rise from row to row.
pub open spec fn output_ids_rise(rows: Seq<OutputRecord>) -> bool {
    forall|i: int, j: int|
        0 <= i < j < rows.len() ==> (#[trigger] rows[i]).id < (#[trigger] rows[j]).id
}

/// Whether the ids of the balance changes rise from row to row.
pub open spec fn change_ids_rise(rows: Seq<(i64, ChangeRecord)>) -> bool {
    forall|i: int, j: int|
        0 <= i < j < rows.len() ==> (#[trigger] rows[i]).0 < (#[trigger] rows[j]).0
}

impl WalletState {
    /// What every reachable state keeps: an id names one row of its table, and later rows have
    /// larger ids.
    pub open spec fn wf(self) -> bool {
        &&& output_ids_rise(self.outputs)
        &&& change_ids_rise(self.balance_changes)
    }
}

/// The id that the next output row gets: one more than that of the last row.
pub open spec fn next_output_id(rows: Seq<OutputRecord>) -> int {
    if rows.len() == 0 {
        1
    } else {
        rows.last().id + 1
    }
}

/// The id that the next balance change gets: one more than that of the last row.
pub open spec fn next_change_id(rows: Seq<(i64, ChangeRecord)>) -> int {
    if rows.len() == 0 {
        1
    } else {
        rows.last().0 + 1
    }
}

impl WalletDb {
    /// A wallet without any rows.
    pub fn new() -> (db: WalletDb)
        ensures
            db@ == (WalletState {
                outputs: Seq::empty(),
                balance_changes: Seq::empty(),
                pending_transactions: Seq::empty(),
                scanned_tip_blocks: Seq::empty(),
            }),
            db@.wf(),
    {
        WalletDb {
            outputs: Vec::new(),
            balance_changes: Vec::new(),
            pending_transactions: Vec::new(),
            scanned_tip_blocks: Vec::new(),
        }
    }

    /// A wallet with the given rows. Gives `None` where the ids of a table do not rise from row to
    /// row.
    pub fn from_tables(
        outputs: Vec<OutputRow>,
        balance_changes: Vec<BalanceChangeRow>,
        pending_transactions: Vec<PendingTransaction>,
        scanned_tip_blocks: Vec<ScannedTipBlock>,
    ) -> (r: Option<WalletDb>)
        ensures
            match r {
                Some(db) => {
                    &&& db@ == (WalletState {
                        outputs: output_records(outputs@),
                        balance_changes: change_records(balance_changes@),
                        pending_transactions: pending_records(pending_transactions@),
                        scanned_tip_blocks: scanned_tip_blocks@,
                    })
                    &&& db@.wf()
                },
                None => !(output_ids_rise(output_records(outputs@)) && change_ids_rise(
                    change_records(balance_changes@),
                )),
            },
    {
        let ghost out = output_records(outputs@);
        let ghost chg = change_records(balance_changes@);
        let mut i: usize = 1;
        while i < outputs.len()
            invariant
                i >= 1,
                out == output_records(outputs@),
                forall|a: int, b: int|
                    0 <= a < b < i && b < out.len() ==> (#[trigger] out[a]).id < (
                    #[trigger] out[b]).id,
            decreases outputs.len() - i,
        {
            assert(out[i - 1] == outputs@[i - 1]@ && out[i as int] == outputs@[i as int]@);
            if outputs[i - 1].id >= outputs[i].id {
                return None;
            }
            i = i + 1;
        }
        let mut j: usize = 1;
        while j < balance_changes.len()
            invariant
                j >= 1,
                chg == change_records(balance_changes@),
                forall|a: int, b: int|
                    0 <= a < b < j && b < chg.len() ==> (#[trigger] chg[a]).0 < (
                    #[trigger] chg[b]).0,
            decreases balance_changes.len() - j,
        {
            assert(chg[j - 1] == balance_changes@[j - 1]@ && chg[j as int] == balance_changes@[j as int]@);
            if balance_changes[j - 1].id >= balance_changes[j].id {
                return None;
            }
            j = j + 1;
        }
        Some(WalletDb { outputs, balance_changes, pending_transactions, scanned_tip_blocks })
    }
}

} // verus!
