//! Locking outputs while a transaction is built.
//!
//! While a transaction is built, no other transaction may take its inputs. The [`FundLocker`]
//! chooses outputs that pay for an amount and locks them, with a time at which the lock expires.
//!
//! A request can carry an idempotency key. If funds have already been locked under that key, the
//! request is answered with those funds and locks nothing more, so that it can be sent again safely.
use crate::amounts::amount_sum;
use crate::api::types::{LockFundsFacts, LockFundsResult};
use crate::bindings::{is_random_id, new_random_id, utc_now, utc_plus_seconds};
use crate::db::error::WalletDbError;
use crate::db::outputs::{lock_output, take_wallet_outputs, with_lock, DbWalletOutputFacts};
use crate::db::pending_transactions::{
    create_pending_transaction, find_pending_transaction_locked_funds_by_idempotency_key,
    locked_funds_found, pending_for,
};
use crate::db::tables::{OutputRecord, PendingRecord, WalletDb, WalletState};
use crate::models::{
    as_signed, representable, text, to_signed, MicroMinotari, UtcTime, MAX_UTC_SECONDS,
    MIN_UTC_SECONDS,
};
use crate::transactions::input_selector::{
    affordable, candidate_rows, covers, fees_for, output_size, output_values, readable, searchable,
    selection_among, selection_made, stored_outputs, Fees, InputSelector, SelectionError,
    UtxoSelection, UtxoSelectionFacts,
};
use crate::wallet_output::WalletOutputFacts;
use vstd::prelude::*;

verus! {

/// Why no funds could be locked.
#[derive(Debug)]
pub enum LockError {
    /// The funds that are locked under the key could not be read.
    Db(WalletDbError),
    /// No outputs could be chosen.
    Selection(SelectionError),
    /// The lock would expire at a time that the calendar does not reach.
    ExpiryOutOfRange,
}

/// The ids of some outputs.
pub open spec fn output_ids(outputs: Seq<DbWalletOutputFacts>) -> Seq<i64> {
    outputs.map_values(|o: DbWalletOutputFacts| o.id)
}

/// A row once a request has locked the outputs with the given ids.
pub open spec fn with_locks(
    r: OutputRecord,
    ids: Seq<i64>,
    request_id: Seq<char>,
    locked_at: UtcTime,
) -> OutputRecord {
    if ids.contains(r.id) {
        with_lock(r, r.id, request_id, locked_at)
    } else {
        r
    }
}

/// The wallet once a selection has been locked for a transaction.
pub open spec fn locked_state(
    before: WalletState,
    account_id: i64,
    selection: UtxoSelectionFacts,
    idempotency_key: Seq<char>,
    request_id: Seq<char>,
    expires_at: UtcTime,
) -> WalletState {
    let ids = output_ids(selection.utxos);
    WalletState {
        outputs: before.outputs.map_values(
            |r: OutputRecord| with_locks(r, ids, request_id, expires_at),
        ),
        pending_transactions: before.pending_transactions.push(
            PendingRecord {
                id: request_id,
                idempotency_key,
                account_id,
                requires_change_output: selection.requires_change_output,
                total_value: selection.total_value,
                fee_without_change: selection.fee_without_change,
                fee_with_change: selection.fee_with_change,
                expires_at,
            },
        ),
        ..before
    }
}

/// The answer to a request for which a selection has been locked.
pub open spec fn lock_result(selection: UtxoSelectionFacts) -> LockFundsFacts {
    LockFundsFacts {
        utxos: selection.utxos.map_values(|o: DbWalletOutputFacts| o.output),
        requires_change_output: selection.requires_change_output,
        total_value: selection.total_value,
        fee_without_change: selection.fee_without_change,
        fee_with_change: selection.fee_with_change,
    }
}

/// Locks a selection for a transaction, which is added to those that are being built.
pub fn lock_selection(
    db: &mut WalletDb,
    account_id: i64,
    selection: UtxoSelection,
    idempotency_key: String,
    request_id: String,
    expires_at: UtcTime,
) -> (r: LockFundsResult)
    ensures
        r@ == lock_result(selection@),
        final(db)@ == locked_state(
            old(db)@,
            account_id,
            selection@,
            idempotency_key@,
            request_id@,
            expires_at,
        ),
        old(db)@.wf() ==> final(db)@.wf(),
{
    let ghost start = db@;
    let ghost ids = output_ids(selection@.utxos);
    create_pending_transaction(
        db,
        request_id.clone(),
        idempotency_key,
        account_id,
        selection.requires_change_output,
        selection.total_value,
        selection.fee_without_change,
        selection.fee_with_change,
        expires_at,
    );
    let ghost added = db@;
    let mut k: usize = 0;
    assert(added.outputs =~= start.outputs.map_values(
        |r: OutputRecord| with_locks(r, ids.take(0), request_id@, expires_at),
    ));
    while k < selection.utxos.len()
        invariant
            k <= selection.utxos@.len(),
            ids == output_ids(selection@.utxos),
            db@ == (WalletState {
                outputs: start.outputs.map_values(
                    |r: OutputRecord| with_locks(r, ids.take(k as int), request_id@, expires_at),
                ),
                ..added
            }),
            start.wf() ==> db@.wf(),
        decreases selection.utxos.len() - k,
    {
        let ghost before = db@.outputs;
        let id: i64 = selection.utxos[k].id;
        assert(id == ids[k as int]);
        let _ = lock_output(db, id, request_id.as_str(), expires_at);
        assert forall|r: OutputRecord| #[trigger]
            with_lock(with_locks(r, ids.take(k as int), request_id@, expires_at), id, request_id@, expires_at)
                == with_locks(r, ids.take(k + 1), request_id@, expires_at) by {
            assert(ids.take(k + 1) =~= ids.take(k as int).push(id));
            assert(ids.take(k + 1).contains(r.id) <==> ids.take(k as int).contains(r.id) || r.id
                == id) by {
                if ids.take(k as int).contains(r.id) {
                    let j = choose|j: int| 0 <= j < k && ids.take(k as int)[j] == r.id;
                    assert(ids.take(k + 1)[j] == r.id);
                }
                if r.id == id {
                    assert(ids.take(k + 1)[k as int] == r.id);
                }
            }
        }
        assert(db@.outputs =~= start.outputs.map_values(
            |r: OutputRecord| with_locks(r, ids.take(k + 1), request_id@, expires_at),
        )) by {
            assert forall|i: int| 0 <= i < start.outputs.len() implies #[trigger] db@.outputs[i]
                == with_locks(start.outputs[i], ids.take(k + 1), request_id@, expires_at) by {
                assert(before[i] == with_locks(
                    start.outputs[i],
                    ids.take(k as int),
                    request_id@,
                    expires_at,
                ));
                assert(db@.outputs[i] == with_lock(before[i], id, request_id@, expires_at));
            }
        }
        k = k + 1;
    }
    assert(ids.take(k as int) =~= ids);
    let requires_change_output = selection.requires_change_output;
    let total_value = selection.total_value;
    let fee_without_change = selection.fee_without_change;
    let fee_with_change = selection.fee_with_change;
    let result = LockFundsResult {
        utxos: take_wallet_outputs(selection.utxos),
        requires_change_output,
        total_value,
        fee_without_change,
        fee_with_change,
    };
    assert(result@ =~= lock_result(selection@));
    result
}

/// A request to lock funds.
pub ghost struct LockRequest {
    pub account_id: i64,
    pub amount: MicroMinotari,
    pub num_outputs: usize,
    pub fee_per_gram: MicroMinotari,
    pub estimated_output_size: Option<usize>,
    pub idempotency_key: Option<Seq<char>>,
    pub seconds_to_lock_utxos: u64,
    pub confirmation_window: u64,
}

/// Whether funds have already been locked under the key of a request.
pub open spec fn already_locked(state: WalletState, q: LockRequest) -> bool {
    q.idempotency_key is Some && pending_for(
        state.pending_transactions,
        q.idempotency_key->0,
        q.account_id,
    ) is Some
}

impl LockRequest {
    /// The parts of the fee that the request asks to pay.
    pub open spec fn fees(self) -> Fees {
        fees_for(self.num_outputs, self.fee_per_gram, output_size(self.estimated_output_size))
    }

    /// The rows that outputs for the request can be taken from.
    pub open spec fn rows(self, state: WalletState) -> Seq<OutputRecord> {
        candidate_rows(state, self.account_id, self.confirmation_window)
    }

    /// The outputs that are chosen for the request, if there are such.
    pub open spec fn selection(self, state: WalletState) -> Option<UtxoSelectionFacts> {
        selection_among(self.rows(state), self.amount, self.fees())
    }

    /// The key that funds are locked under: that of the request, or else a new one.
    pub open spec fn key_or(self, new_key: Seq<char>) -> Seq<char> {
        match self.idempotency_key {
            Some(key) => key,
            None => new_key,
        }
    }
}

/// What answering a request comes to, given the time, a new key and the id of a new transaction.
///
/// Funds that are already locked under the key are the answer, and nothing changes. Otherwise
/// outputs are chosen and locked, or there is an error and nothing changes.
pub open spec fn lock_outcome(
    before: WalletState,
    after: WalletState,
    q: LockRequest,
    now: UtcTime,
    new_key: Seq<char>,
    request_id: Seq<char>,
    result: Result<LockFundsResult, LockError>,
) -> bool {
    let expiry = now.seconds + as_signed(q.seconds_to_lock_utxos);
    if already_locked(before, q) {
        &&& after == before
        &&& match result {
            Ok(funds) => locked_funds_found(
                before,
                q.idempotency_key->0,
                q.account_id,
                Ok(Some(funds)),
            ),
            Err(LockError::Db(e)) => locked_funds_found(
                before,
                q.idempotency_key->0,
                q.account_id,
                Err(e),
            ),
            Err(_) => false,
        }
    } else {
        match result {
            Ok(funds) => {
                &&& readable(q.rows(before))
                &&& q.selection(before) is Some
                &&& representable(expiry)
                &&& funds@ == lock_result(q.selection(before)->0)
                &&& after == locked_state(
                    before,
                    q.account_id,
                    q.selection(before)->0,
                    q.key_or(new_key),
                    request_id,
                    UtcTime { seconds: expiry as i64, nanos: now.nanos },
                )
            },
            Err(LockError::Selection(e)) => after == before && selection_made(
                q.rows(before),
                q.amount,
                q.fees(),
                Err(e),
            ),
            Err(LockError::ExpiryOutOfRange) => {
                &&& after == before
                &&& readable(q.rows(before))
                &&& q.selection(before) is Some
                &&& !representable(expiry)
            },
            Err(LockError::Db(_)) => false,
        }
    }
}

/// Whether funds are worth what they are said to be worth and pay for an amount and for the fee,
/// and for the fee with change where change is given.
pub open spec fn funds_cover(funds: LockFundsFacts, amount: MicroMinotari) -> bool {
    &&& funds.total_value.0 == amount_sum(
        funds.utxos.map_values(|o: WalletOutputFacts| o.value.0),
    )
    &&& funds.total_value.0 >= amount.0 + funds.fee_without_change.0
    &&& funds.requires_change_output ==> funds.total_value.0 > amount.0 + funds.fee_with_change.0
}

/// Whether the outputs that a request can be met from pay for it.
pub open spec fn request_affordable(state: WalletState, q: LockRequest) -> bool {
    affordable(stored_outputs(q.rows(state)), q.amount, q.fees())
}

/// Whether the search for the outputs that a request asks for keeps all its sums in range.
pub open spec fn request_searchable(state: WalletState, q: LockRequest) -> bool {
    searchable(stored_outputs(q.rows(state)), q.amount, q.fees())
}

/// What the answer to a request says of the funds: funds that are newly locked pay for the request,
/// and funds are only refused as insufficient where they are.
pub open spec fn answered_rightly(
    before: WalletState,
    q: LockRequest,
    result: Result<LockFundsResult, LockError>,
) -> bool {
    !already_locked(before, q) ==> match result {
        Ok(funds) => {
            &&& funds_cover(funds@, q.amount)
            &&& covers(q.selection(before)->0, q.amount, q.fees())
            &&& request_affordable(before, q)
        },
        Err(LockError::Selection(SelectionError::InsufficientFunds)) => request_searchable(
            before,
            q,
        ) ==> !request_affordable(before, q),
        Err(_) => true,
    }
}

/// Locks funds for transactions. Requests are answered one at a time, so that what one request has
/// locked is not free for the next.
#[derive(Debug)]
pub struct FundLocker {
    pub db: WalletDb,
}

impl FundLocker {
    /// A locker for the funds of a wallet.
    pub fn new(db: WalletDb) -> (r: FundLocker)
        ensures
            r.db == db,
    {
        FundLocker { db }
    }

    /// Answers a request at a given time, with a new key for a request that has none and with the
    /// id that a new transaction gets.
    pub fn lock_at(
        &mut self,
        account_id: i64,
        amount: MicroMinotari,
        num_outputs: usize,
        fee_per_gram: MicroMinotari,
        estimated_output_size: Option<usize>,
        idempotency_key: Option<String>,
        seconds_to_lock_utxos: u64,
        confirmation_window: u64,
        now: UtcTime,
        new_key: String,
        request_id: String,
    ) -> (r: Result<LockFundsResult, LockError>)
        requires
            now.wf(),
        ensures
            ({
                let q = (LockRequest {
                    account_id,
                    amount,
                    num_outputs,
                    fee_per_gram,
                    estimated_output_size,
                    idempotency_key: text(idempotency_key),
                    seconds_to_lock_utxos,
                    confirmation_window,
                });
                &&& lock_outcome(
                    old(self).db@,
                    final(self).db@,
                    q,
                    now,
                    new_key@,
                    request_id@,
                    r,
                )
                &&& answered_rightly(old(self).db@, q, r)
            }),
            old(self).db@.wf() ==> final(self).db@.wf(),
    {
        let ghost q = LockRequest {
            account_id,
            amount,
            num_outputs,
            fee_per_gram,
            estimated_output_size,
            idempotency_key: text(idempotency_key),
            seconds_to_lock_utxos,
            confirmation_window,
        };
        if let Some(key) = &idempotency_key {
            match find_pending_transaction_locked_funds_by_idempotency_key(
                &self.db,
                key.as_str(),
                account_id,
            ) {
                Ok(Some(funds)) => return Ok(funds),
                Ok(None) => {},
                Err(e) => return Err(LockError::Db(e)),
            }
        }
        let selector = InputSelector::new(account_id, confirmation_window);
        let selection = match selector.fetch_unspent_outputs(
            &self.db,
            amount,
            num_outputs,
            fee_per_gram,
            estimated_output_size,
        ) {
            Ok(selection) => selection,
            Err(e) => return Err(LockError::Selection(e)),
        };
        let seconds: i64 = to_signed(seconds_to_lock_utxos);
        let expiry: i128 = now.seconds as i128 + seconds as i128;
        if expiry < MIN_UTC_SECONDS as i128 || expiry > MAX_UTC_SECONDS as i128 {
            return Err(LockError::ExpiryOutOfRange);
        }
        let expires_at = utc_plus_seconds(now, seconds);
        let key = match idempotency_key {
            Some(key) => key,
            None => new_key,
        };
        proof {
            let s = selection@;
            assert(s.utxos.map_values(|o: DbWalletOutputFacts| o.output).map_values(
                |o: WalletOutputFacts| o.value.0,
            ) =~= output_values(s.utxos));
        }
        Ok(lock_selection(&mut self.db, account_id, selection, key, request_id, expires_at))
    }

    /// Locks outputs of an account for a transaction that sends an amount.
    ///
    /// Chooses outputs that pay for the amount and for the fee, and locks them for
    /// `seconds_to_lock_utxos` seconds. If funds of the account have already been locked under
    /// `idempotency_key`, those are the answer and nothing changes.
    pub fn lock(
        &mut self,
        account_id: i64,
        amount: MicroMinotari,
        num_outputs: usize,
        fee_per_gram: MicroMinotari,
        estimated_output_size: Option<usize>,
        idempotency_key: Option<String>,
        seconds_to_lock_utxos: u64,
        confirmation_window: u64,
    ) -> (r: Result<LockFundsResult, LockError>)
        ensures
            ({
                let q = (LockRequest {
                    account_id,
                    amount,
                    num_outputs,
                    fee_per_gram,
                    estimated_output_size,
                    idempotency_key: text(idempotency_key),
                    seconds_to_lock_utxos,
                    confirmation_window,
                });
                &&& exists|now: UtcTime, new_key: Seq<char>, request_id: Seq<char>|
                    {
                        &&& now.wf()
                        &&& is_random_id(new_key)
                        &&& is_random_id(request_id)
                        &&& #[trigger] lock_outcome(
                            old(self).db@,
                            final(self).db@,
                            q,
                            now,
                            new_key,
                            request_id,
                            r,
                        )
                    }
                &&& answered_rightly(old(self).db@, q, r)
            }),
            old(self).db@.wf() ==> final(self).db@.wf(),
    {
        let now = utc_now();
        let new_key = new_random_id();
        let request_id = new_random_id();
        self.lock_at(
            account_id,
            amount,
            num_outputs,
            fee_per_gram,
            estimated_output_size,
            idempotency_key,
            seconds_to_lock_utxos,
            confirmation_window,
            now,
            new_key,
            request_id,
        )
    }
}

} // verus!
