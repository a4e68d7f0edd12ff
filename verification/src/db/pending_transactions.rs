//! The transactions that are being built, and the funds that are locked for them.
use crate::api::types::{LockFundsFacts, LockFundsResult};
use crate::db::error::WalletDbResult;
use crate::db::outputs::{
    decodable, fetch_outputs_by_lock_request_id, locked_by, rows_read, stored_output,
    take_wallet_outputs,
};
use crate::db::tables::{
    pending_records, OutputRecord, PendingRecord, PendingTransaction, WalletDb, WalletState,
};
use crate::models::{MicroMinotari, UtcTime};
use vstd::prelude::*;

verus! {

/// Adds a transaction to those that are being built.
pub fn create_pending_transaction(
    db: &mut WalletDb,
    id: String,
    idempotency_key: String,
    account_id: i64,
    requires_change_output: bool,
    total_value: MicroMinotari,
    fee_without_change: MicroMinotari,
    fee_with_change: MicroMinotari,
    expires_at: UtcTime,
)
    ensures
        final(db)@ == (WalletState {
            pending_transactions: old(db)@.pending_transactions.push(
                PendingRecord {
                    id: id@,
                    idempotency_key: idempotency_key@,
                    account_id,
                    requires_change_output,
                    total_value,
                    fee_without_change,
                    fee_with_change,
                    expires_at,
                },
            ),
            ..old(db)@
        }),
        old(db)@.wf() ==> final(db)@.wf(),
{
    let row = PendingTransaction {
        id,
        idempotency_key,
        account_id,
        requires_change_output,
        total_value,
        fee_without_change,
        fee_with_change,
        expires_at,
    };
    let ghost record = row@;
    let ghost before = db.pending_transactions@;
    db.pending_transactions.push(row);
    assert(pending_records(db.pending_transactions@) =~= pending_records(before).push(record));
    assert(db@ =~= (WalletState {
        pending_transactions: old(db)@.pending_transactions.push(record),
        ..old(db)@
    }));
}

/// The transactions of an account that are being built under a key.
pub open spec fn has_key(idempotency_key: Seq<char>, account_id: i64) -> spec_fn(
    PendingRecord,
) -> bool {
    |p: PendingRecord| p.idempotency_key == idempotency_key && p.account_id == account_id
}

/// The transaction of an account that is being built under a key: the first, if there is one.
pub open spec fn pending_for(
    pending: Seq<PendingRecord>,
    idempotency_key: Seq<char>,
    account_id: i64,
) -> Option<PendingRecord>
    decreases pending.len(),
{
    if pending.len() == 0 {
        None
    } else {
        match pending_for(pending.drop_last(), idempotency_key, account_id) {
            Some(p) => Some(p),
            None => if has_key(idempotency_key, account_id)(pending.last()) {
                Some(pending.last())
            } else {
                None
            },
        }
    }
}

proof fn lemma_pending_in_front(
    pending: Seq<PendingRecord>,
    idempotency_key: Seq<char>,
    account_id: i64,
    n: int,
)
    requires
        0 <= n <= pending.len(),
        pending_for(pending.take(n), idempotency_key, account_id) is Some,
    ensures
        pending_for(pending, idempotency_key, account_id) == pending_for(
            pending.take(n),
            idempotency_key,
            account_id,
        ),
    decreases pending.len() - n,
{
    if n == pending.len() {
        assert(pending.take(n) =~= pending);
    } else {
        assert(pending.take(n + 1).drop_last() =~= pending.take(n));
        lemma_pending_in_front(pending, idempotency_key, account_id, n + 1);
    }
}

/// The funds that are locked for a transaction, where the outputs can be read.
pub open spec fn locked_funds(rows: Seq<OutputRecord>, p: PendingRecord) -> LockFundsFacts {
    LockFundsFacts {
        utxos: rows.filter(locked_by(p.id)).map_values(|r: OutputRecord| stored_output(r).output),
        requires_change_output: p.requires_change_output,
        total_value: p.total_value,
        fee_without_change: p.fee_without_change,
        fee_with_change: p.fee_with_change,
    }
}

/// What looking up the locked funds of a transaction comes to.
pub open spec fn locked_funds_found(
    state: WalletState,
    idempotency_key: Seq<char>,
    account_id: i64,
    result: WalletDbResult<Option<LockFundsResult>>,
) -> bool {
    match pending_for(state.pending_transactions, idempotency_key, account_id) {
        None => result is Ok && result->Ok_0 is None,
        Some(p) => {
            let rows = state.outputs.filter(locked_by(p.id));
            match result {
                Ok(Some(funds)) => {
                    &&& forall|k: int| 0 <= k < rows.len() ==> decodable(#[trigger] rows[k])
                    &&& funds@ == locked_funds(state.outputs, p)
                },
                Ok(None) => false,
                Err(e) => rows_read(rows, Err(e)),
            }
        },
    }
}

/// Looks up the funds that are locked for an account's transaction under a key.
pub fn find_pending_transaction_locked_funds_by_idempotency_key(
    db: &WalletDb,
    idempotency_key: &str,
    account_id: i64,
) -> (r: WalletDbResult<Option<LockFundsResult>>)
    ensures
        locked_funds_found(db@, idempotency_key@, account_id, r),
{
    let ghost pending = db@.pending_transactions;
    let wanted = idempotency_key.to_owned();
    let mut i: usize = 0;
    assert(pending.take(0) =~= Seq::empty());
    while i < db.pending_transactions.len()
        invariant
            i <= db.pending_transactions@.len(),
            pending == pending_records(db.pending_transactions@),
            pending == db@.pending_transactions,
            wanted@ == idempotency_key@,
            pending_for(pending.take(i as int), idempotency_key@, account_id) is None,
        decreases db.pending_transactions.len() - i,
    {
        let row = &db.pending_transactions[i];
        assert(pending[i as int] == row@);
        assert(pending.take(i + 1).drop_last() =~= pending.take(i as int));
        assert(pending.take(i + 1).last() == pending[i as int]);
        if row.account_id == account_id && row.idempotency_key == wanted {
            proof {
                lemma_pending_in_front(pending, idempotency_key@, account_id, i + 1);
            }
            return match fetch_outputs_by_lock_request_id(db, row.id.as_str()) {
                Ok(outputs) => {
                    let funds = LockFundsResult {
                        utxos: take_wallet_outputs(outputs),
                        requires_change_output: row.requires_change_output,
                        total_value: row.total_value,
                        fee_without_change: row.fee_without_change,
                        fee_with_change: row.fee_with_change,
                    };
                    assert(funds@ =~= locked_funds(db@.outputs, row@));
                    Ok(Some(funds))
                },
                Err(e) => Err(e),
            };
        }
        i = i + 1;
    }
    assert(pending.take(i as int) =~= pending);
    Ok(None)
}

} // verus!
