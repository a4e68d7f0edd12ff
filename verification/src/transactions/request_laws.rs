//! What the answer to a request to lock funds says of the request and of the tables, in terms of
//! amounts, sizes, times and the rows' own fields.
use crate::amounts::{amount_sum, lemma_net_sum_bound, lemma_net_sum_subset};
use crate::api::types::LockFundsResult;
use crate::bindings::{decoded_wallet_output, weight};
use crate::db::laws::law_ordering_keeps_the_rows;
use crate::db::outputs::{
    confirmation_height, decodable, locked_by, rows_read, spendable, stored_output, DbWalletOutput,
};
use crate::db::pending_transactions::pending_for;
use crate::db::query_laws::{
    lemma_row_is_selected, lemma_row_of_selection, lemma_row_of_sorted,
};
use crate::db::scanned_tip_blocks::tip_height;
use crate::db::tables::{OutputRecord, PendingRecord, ScannedTipBlock, WalletState};
use crate::models::{saturating_sum, MicroMinotari, OutputStatus, UtcTime};
use crate::transactions::fund_locker::{
    already_locked, answered_rightly, lock_outcome, output_ids, request_searchable, LockError,
    LockRequest,
};
use crate::transactions::input_selector::{
    covers, fees_for, output_size, output_values, selection_outcome, stored_outputs, InputSelector,
    SelectionError, UtxoSelection, UtxoSelectionFacts,
};
use crate::transactions::laws::{
    answer_id, answer_rows, law_chosen_outputs_are_spendable, lemma_answer_row,
};
use crate::wallet_output::WalletOutput;
use vstd::prelude::*;

verus! {

proof fn lemma_products(rate: int, base: int, inputs: int, more: int)
    requires
        rate >= 0,
        base >= 0,
        inputs >= 0,
        more >= 0,
    ensures
        rate * (base + 8 * inputs) == rate * base + inputs * (8 * rate),
        rate * (base + 8 * inputs + more) == rate * (base + 8 * inputs) + rate * more,
        rate * base >= 0,
        rate * more >= 0,
        inputs * (8 * rate) >= 0,
        rate >= 1 ==> base <= rate * base,
        rate >= 1 ==> more <= rate * more,
        inputs >= 1 ==> 8 * rate <= inputs * (8 * rate),
        rate == 0 ==> rate * base == 0 && rate * more == 0 && inputs * (8 * rate) == 0,
{
    assert(rate * (base + 8 * inputs) == rate * base + inputs * (8 * rate)) by (nonlinear_arith);
    assert(rate * (base + 8 * inputs + more) == rate * (base + 8 * inputs) + rate * more)
        by (nonlinear_arith);
    assert(rate * base >= 0) by (nonlinear_arith)
        requires
            rate >= 0,
            base >= 0,
    ;
    assert(rate * more >= 0) by (nonlinear_arith)
        requires
            rate >= 0,
            more >= 0,
    ;
    assert(inputs * (8 * rate) >= 0) by (nonlinear_arith)
        requires
            rate >= 0,
            inputs >= 0,
    ;
    if rate >= 1 {
        assert(base <= rate * base) by (nonlinear_arith)
            requires
                rate >= 1,
                base >= 0,
        ;
        assert(more <= rate * more) by (nonlinear_arith)
            requires
                rate >= 1,
                more >= 0,
        ;
    }
    if inputs >= 1 {
        assert(8 * rate <= inputs * (8 * rate)) by (nonlinear_arith)
            requires
                rate >= 0,
                inputs >= 1,
        ;
    }
}

/// The parts of a fee, as long as they fit in an amount.
proof fn lemma_fee_parts(num_outputs: usize, rate: MicroMinotari, size: usize)
    requires
        size * num_outputs <= usize::MAX,
    ensures
        ({
            let fees = fees_for(num_outputs, rate, size);
            let grams = 10 + 53 * num_outputs + (size * num_outputs) / 16;
            &&& rate.0 * grams <= u64::MAX ==> fees.output_fee.0 == rate.0 * grams
            &&& rate.0 * grams > u64::MAX ==> fees.output_fee.0 == u64::MAX
            &&& rate.0 * (53 + size as int / 16) <= u64::MAX ==> fees.change_fee.0 == rate.0 * (53
                + size as int / 16)
            &&& rate.0 * (53 + size as int / 16) > u64::MAX ==> fees.change_fee.0 == u64::MAX
            &&& 8 * rate.0 <= u64::MAX ==> fees.fee_per_input.0 == 8 * rate.0
        }),
{
    let g = rate.0 as int;
    let grams = 10 + 53 * num_outputs + (size * num_outputs) / 16;
    let change = 53 + size as int / 16;
    lemma_products(g, grams, 0, change);
    lemma_products(g, 8, 0, 0);
    assert(size * num_outputs >= 0) by (nonlinear_arith);
    assert(weight(1, 0, num_outputs as nat, (size * num_outputs) as nat) as int == if grams
        <= u64::MAX {
        grams
    } else {
        u64::MAX as int
    });
    assert(weight(1, 0, num_outputs as nat, (size * num_outputs) as nat) * g == g * weight(
        1,
        0,
        num_outputs as nat,
        (size * num_outputs) as nat,
    )) by (nonlinear_arith);
    assert(weight(0, 0, 1, size as nat) as int == if change <= u64::MAX {
        change
    } else {
        u64::MAX as int
    });
    assert(weight(0, 0, 1, size as nat) * g == g * weight(0, 0, 1, size as nat))
        by (nonlinear_arith);
    assert(weight(0, 1, 0, 0) == 8);
    assert(weight(0, 1, 0, 0) * g == 8 * g) by (nonlinear_arith)
        requires
            weight(0, 1, 0, 0) == 8,
    ;
    if grams > u64::MAX {
        if g == 0 {
            assert(g * (u64::MAX as int) == 0) by (nonlinear_arith)
                requires
                    g == 0,
            ;
        } else {
            assert(g * (u64::MAX as int) >= u64::MAX) by (nonlinear_arith)
                requires
                    g >= 1,
            ;
        }
    }
}

/// What a selection that covers an amount says of its fees.
proof fn lemma_selection_fees(
    s: UtxoSelectionFacts,
    amount: MicroMinotari,
    num_outputs: usize,
    rate: MicroMinotari,
    size: usize,
)
    requires
        covers(s, amount, fees_for(num_outputs, rate, size)),
        s.fee_with_change == saturating_sum(
            s.fee_without_change,
            fees_for(num_outputs, rate, size).change_fee,
        ),
        size * num_outputs <= usize::MAX,
        rate.0 * (10 + 53 * num_outputs + (size * num_outputs) / 16 + 8 * s.utxos.len())
            <= u64::MAX,
    ensures
        ({
            let fee = rate.0 * (10 + 53 * num_outputs + (size * num_outputs) / 16 + 8
                * s.utxos.len());
            let more = rate.0 * (53 + size as int / 16);
            let worth = amount_sum(output_values(s.utxos));
            &&& s.fee_without_change.0 == fee
            &&& s.total_value.0 == worth
            &&& worth >= amount.0 + fee
            &&& fee + more <= u64::MAX ==> s.fee_with_change.0 == fee + more
            &&& fee + more > u64::MAX ==> s.fee_with_change.0 == u64::MAX
            &&& more <= u64::MAX && 8 * rate.0 <= u64::MAX ==> (s.requires_change_output <==> worth
                > amount.0 + fee + more + 8 * rate.0)
        }),
{
    let fees = fees_for(num_outputs, rate, size);
    let r = rate.0 as int;
    let k = s.utxos.len() as int;
    let grams = 10 + 53 * num_outputs + (size * num_outputs) / 16;
    let change = 53 + size as int / 16;
    assert(size * num_outputs >= 0) by (nonlinear_arith);
    lemma_fee_parts(num_outputs, rate, size);
    lemma_products(r, grams, k, change);
    assert(k * fees.fee_per_input.0 == k * (8 * r)) by {
        if k == 0 {
            assert(k * fees.fee_per_input.0 == 0) by (nonlinear_arith)
                requires
                    k == 0,
            ;
        } else {
            assert(8 * r <= u64::MAX);
        }
    }
}

/// Funds that are newly locked for a request with outputs of a given size carry the fee for a
/// transaction with one kernel, the locked outputs as its inputs, and the asked outputs of that
/// size: ten grams, eight for each input, fifty-three for each output and one for every sixteen
/// bytes, at the asked rate. With change the fee rises by that of one more output of that size.
/// Where no size is given, the outputs count as ones of sixty-four bytes. Change is asked for
/// exactly where the funds are worth more than the amount, the fee with change and one more input.
pub proof fn law_fee_follows_the_asked_size(
    before: WalletState,
    after: WalletState,
    q: LockRequest,
    now: UtcTime,
    new_key: Seq<char>,
    request_id: Seq<char>,
    funds: LockFundsResult,
    size: usize,
)
    requires
        lock_outcome(before, after, q, now, new_key, request_id, Ok(funds)),
        answered_rightly(before, q, Ok(funds)),
        !already_locked(before, q),
        q.estimated_output_size == Some(size) || q.estimated_output_size is None && size == 64,
        size * q.num_outputs <= usize::MAX,
        q.fee_per_gram.0 * (10 + 53 * q.num_outputs + (size * q.num_outputs) / 16 + 8
            * funds.utxos@.len()) <= u64::MAX,
    ensures
        ({
            let rate = q.fee_per_gram.0;
            let fee = rate * (10 + 53 * q.num_outputs + (size * q.num_outputs) / 16 + 8
                * funds.utxos@.len());
            let more = rate * (53 + size as int / 16);
            let worth = amount_sum(funds.utxos@.map_values(|o: WalletOutput| o.value.0));
            &&& funds.fee_without_change.0 == fee
            &&& funds.total_value.0 == worth
            &&& worth >= q.amount.0 + fee
            &&& fee + more <= u64::MAX ==> funds.fee_with_change.0 == fee + more
            &&& fee + more > u64::MAX ==> funds.fee_with_change.0 == u64::MAX
            &&& more <= u64::MAX && 8 * rate <= u64::MAX ==> (funds.requires_change_output <==> worth
                > q.amount.0 + fee + more + 8 * rate)
        }),
{
    let s = q.selection(before)->0;
    let k = funds.utxos@.len() as int;
    assert(output_size(q.estimated_output_size) == size);
    assert(funds@.utxos.len() == k);
    assert(s.utxos.len() == k);
    assert(funds.utxos@.map_values(|o: WalletOutput| o.value.0) =~= output_values(s.utxos)) by {
        assert forall|i: int| 0 <= i < k implies (#[trigger] funds.utxos@[i]).value.0
            == s.utxos[i].output.value.0 by {
            assert(funds@.utxos[i] == funds.utxos@[i]@);
            assert(funds@.utxos[i] == s.utxos[i].output);
        }
    }
    lemma_selection_fees(s, q.amount, q.num_outputs, q.fee_per_gram, size);
}

/// Outputs that are chosen for a transaction carry the same fees as funds that are locked for it: at
/// the asked rate ten grams, eight for each chosen output, fifty-three for each payment output and
/// one for every sixteen bytes of the asked size; with change one more output of that size.
pub proof fn law_selection_fee_follows_the_asked_size(
    state: WalletState,
    selector: InputSelector,
    amount: MicroMinotari,
    num_outputs: usize,
    rate: MicroMinotari,
    estimated_output_size: Option<usize>,
    selection: UtxoSelection,
    size: usize,
)
    requires
        selection_outcome(
            state,
            selector,
            amount,
            num_outputs,
            rate,
            estimated_output_size,
            Ok(selection),
        ),
        estimated_output_size == Some(size) || estimated_output_size is None && size == 64,
        size * num_outputs <= usize::MAX,
        rate.0 * (10 + 53 * num_outputs + (size * num_outputs) / 16 + 8 * selection.utxos@.len())
            <= u64::MAX,
    ensures
        ({
            let fee = rate.0 * (10 + 53 * num_outputs + (size * num_outputs) / 16 + 8
                * selection.utxos@.len());
            let more = rate.0 * (53 + size as int / 16);
            let worth = amount_sum(
                selection.utxos@.map_values(|o: DbWalletOutput| o.output.value.0),
            );
            &&& selection.fee_without_change.0 == fee
            &&& selection.total_value.0 == worth
            &&& worth >= amount.0 + fee
            &&& fee + more <= u64::MAX ==> selection.fee_with_change.0 == fee + more
            &&& fee + more > u64::MAX ==> selection.fee_with_change.0 == u64::MAX
            &&& more <= u64::MAX && 8 * rate.0 <= u64::MAX ==> (selection.requires_change_output
                <==> worth > amount.0 + fee + more + 8 * rate.0)
        }),
{
    assert(output_size(estimated_output_size) == size);
    assert(selection@.utxos.len() == selection.utxos@.len());
    assert(selection.utxos@.map_values(|o: DbWalletOutput| o.output.value.0) =~= output_values(
        selection@.utxos,
    ));
    lemma_selection_fees(selection@, amount, num_outputs, rate, size);
}

/// The greatest scanned height of an account is reached by none of its scanned blocks but the
/// highest ones, and is zero where there are none.
proof fn lemma_tip(blocks: Seq<ScannedTipBlock>, account_id: i64, tip: u64)
    requires
        forall|b: int|
            0 <= b < blocks.len() && (#[trigger] blocks[b]).account_id == account_id
                ==> blocks[b].height <= tip,
        tip == 0 || exists|b: int|
            0 <= b < blocks.len() && (#[trigger] blocks[b]).account_id == account_id
                && blocks[b].height == tip,
    ensures
        tip_height(blocks, account_id) == tip,
{
    lemma_tip_bounds(blocks, account_id);
}

proof fn lemma_tip_bounds(blocks: Seq<ScannedTipBlock>, account_id: i64)
    ensures
        forall|b: int|
            0 <= b < blocks.len() && (#[trigger] blocks[b]).account_id == account_id
                ==> blocks[b].height <= tip_height(blocks, account_id),
        tip_height(blocks, account_id) == 0 || exists|b: int|
            0 <= b < blocks.len() && (#[trigger] blocks[b]).account_id == account_id
                && blocks[b].height == tip_height(blocks, account_id),
    decreases blocks.len(),
{
    if blocks.len() > 0 {
        let front = blocks.drop_last();
        lemma_tip_bounds(front, account_id);
        assert(forall|b: int| 0 <= b < front.len() ==> front[b] == blocks[b]);
        let last = blocks[blocks.len() - 1];
        if !(last.account_id == account_id && last.height > tip_height(front, account_id)) {
            if tip_height(front, account_id) != 0 {
                let b = choose|b: int|
                    0 <= b < front.len() && (#[trigger] front[b]).account_id == account_id
                        && front[b].height == tip_height(front, account_id);
                assert(blocks[b].height == tip_height(front, account_id));
            }
        } else {
            assert(last.height == tip_height(blocks, account_id));
        }
    }
}

/// Every output of newly locked funds is read from a row, at the place that is named here, that the
/// account owns, that was unspent, neither deleted nor burned, had a maturity between zero and the
/// tip, and lay at least the confirmation window below the tip. The tip is the greatest height that
/// was scanned for the account, or zero. The row is now locked under the id of the request until the
/// asked number of seconds after the request, and keeps all its other fields.
pub proof fn law_new_funds_are_free_rows(
    before: WalletState,
    after: WalletState,
    q: LockRequest,
    now: UtcTime,
    new_key: Seq<char>,
    request_id: Seq<char>,
    funds: LockFundsResult,
    tip: u64,
    i: int,
) -> (k: int)
    requires
        before.wf(),
        lock_outcome(before, after, q, now, new_key, request_id, Ok(funds)),
        !already_locked(before, q),
        forall|b: int|
            0 <= b < before.scanned_tip_blocks.len() && (
            #[trigger] before.scanned_tip_blocks[b]).account_id == q.account_id
                ==> before.scanned_tip_blocks[b].height <= tip,
        tip == 0 || exists|b: int|
            0 <= b < before.scanned_tip_blocks.len() && (
            #[trigger] before.scanned_tip_blocks[b]).account_id == q.account_id
                && before.scanned_tip_blocks[b].height == tip,
        0 <= i < funds.utxos@.len(),
    ensures
        0 <= k < before.outputs.len(),
        ({
            let wrap = 0x1_0000_0000_0000_0000int;
            let r = before.outputs[k];
            let o = funds.utxos@[i];
            let highest = if tip >= q.confirmation_window {
                tip - q.confirmation_window
            } else {
                0
            };
            let until = after.outputs[k].locked_at;
            &&& r.account_id == q.account_id
            &&& r.status == OutputStatus::Unspent
            &&& r.deleted_at is None
            &&& !r.is_burn
            &&& 0 <= r.maturity
            &&& r.maturity <= tip
            &&& r.mined_in_block_height <= (if highest <= i64::MAX { highest } else {
                highest - wrap
            })
            &&& r.wallet_output_json == Some(o.json@)
            &&& decoded_wallet_output(o.json@) == Some((o.value.0, o.maturity, o.output_hash@))
            &&& until is Some
            &&& until->0.seconds == now.seconds + (if q.seconds_to_lock_utxos <= i64::MAX {
                q.seconds_to_lock_utxos as int
            } else {
                q.seconds_to_lock_utxos - wrap
            })
            &&& until->0.nanos == now.nanos
            &&& after.outputs[k] == (OutputRecord {
                status: OutputStatus::Locked,
                locked_by_request_id: Some(request_id),
                locked_at: until,
                ..r
            })
        }),
{
    lemma_tip(before.scanned_tip_blocks, q.account_id, tip);
    let utxos = q.selection(before)->0.utxos;
    assert(funds@.utxos.len() == funds.utxos@.len());
    assert(answer_rows(before, q).len() == utxos.len());
    let k = lemma_answer_row(before, after, q, now, new_key, request_id, funds, i);
    law_chosen_outputs_are_spendable(before, q, i);
    let lowest = confirmation_height(tip, q.confirmation_window);
    let p = spendable(q.account_id, lowest, tip);
    let a = choose|a: int|
        0 <= a < before.outputs.len() && p(#[trigger] before.outputs[a]) && utxos[i]
            == stored_output(before.outputs[a]);
    assert(utxos[i].id == answer_rows(before, q)[i]);
    assert(before.outputs[a].id == before.outputs[k].id);
    assert(a == k);
    assert(funds@.utxos[i] == funds.utxos@[i]@);
    let ids = output_ids(utxos);
    assert(ids[i] == before.outputs[k].id);
    assert(ids.contains(before.outputs[k].id));
    k
}

/// Locking funds changes only the rows of the outputs that are handed out: a row that changes was
/// unspent, and its wallet output is among the answer. One transaction is added to the pending ones,
/// which holds what was asked and answered; the ledger and the scanned blocks stay as they are.
pub proof fn law_new_funds_change_nothing_else(
    before: WalletState,
    after: WalletState,
    q: LockRequest,
    now: UtcTime,
    new_key: Seq<char>,
    request_id: Seq<char>,
    funds: LockFundsResult,
    k: int,
)
    requires
        before.wf(),
        lock_outcome(before, after, q, now, new_key, request_id, Ok(funds)),
        !already_locked(before, q),
        0 <= k < before.outputs.len(),
    ensures
        ({
            let n = before.pending_transactions.len();
            let added = after.pending_transactions.last();
            &&& after.outputs.len() == before.outputs.len()
            &&& after.balance_changes == before.balance_changes
            &&& after.scanned_tip_blocks == before.scanned_tip_blocks
            &&& after.outputs[k] != before.outputs[k] ==> {
                &&& before.outputs[k].status == OutputStatus::Unspent
                &&& exists|i: int|
                    0 <= i < funds.utxos@.len() && Some((#[trigger] funds.utxos@[i]).json@)
                        == before.outputs[k].wallet_output_json
            }
            &&& after.pending_transactions.len() == n + 1
            &&& forall|j: int|
                0 <= j < n ==> #[trigger] after.pending_transactions[j]
                    == before.pending_transactions[j]
            &&& added.id == request_id
            &&& q.idempotency_key is Some ==> added.idempotency_key == q.idempotency_key->0
            &&& q.idempotency_key is None ==> added.idempotency_key == new_key
            &&& added.account_id == q.account_id
            &&& added.requires_change_output == funds.requires_change_output
            &&& added.total_value == funds.total_value
            &&& added.fee_without_change == funds.fee_without_change
            &&& added.fee_with_change == funds.fee_with_change
            &&& added.expires_at.seconds == now.seconds + (if q.seconds_to_lock_utxos <= i64::MAX {
                q.seconds_to_lock_utxos as int
            } else {
                q.seconds_to_lock_utxos - 0x1_0000_0000_0000_0000
            })
            &&& added.expires_at.nanos == now.nanos
        }),
{
    let utxos = q.selection(before)->0.utxos;
    let ids = output_ids(utxos);
    if after.outputs[k] != before.outputs[k] {
        assert(ids.contains(before.outputs[k].id));
        let i = choose|i: int| 0 <= i < ids.len() && ids[i] == before.outputs[k].id;
        assert(answer_rows(before, q)[i] == before.outputs[k].id);
        let a = lemma_answer_row(before, after, q, now, new_key, request_id, funds, i);
        assert(a == k);
        assert(funds@.utxos[i] == funds.utxos@[i]@);
        assert(Some(funds.utxos@[i].json@) == before.outputs[k].wallet_output_json);
    }
}

/// A request under a key is answered from the first pending transaction of its account under that
/// key, which stands at the place that is named here: with the worth, the fees and the change that
/// the transaction holds, and without any change to the wallet. Where there is none, or the request
/// has no key, funds are newly locked or the request is refused; a refused request changes nothing.
/// Funds are never locked until a time that the calendar does not reach.
pub proof fn law_a_key_decides_the_answer(
    before: WalletState,
    after: WalletState,
    q: LockRequest,
    now: UtcTime,
    new_key: Seq<char>,
    request_id: Seq<char>,
    result: Result<LockFundsResult, LockError>,
) -> (j: int)
    requires
        lock_outcome(before, after, q, now, new_key, request_id, result),
    ensures
        0 <= j <= before.pending_transactions.len(),
        q.idempotency_key is None ==> j == before.pending_transactions.len(),
        q.idempotency_key is Some ==> forall|m: int|
            0 <= m < j ==> (#[trigger] before.pending_transactions[m]).idempotency_key
                != q.idempotency_key->0 || before.pending_transactions[m].account_id
                != q.account_id,
        result is Err ==> after == before,
        j < before.pending_transactions.len() ==> {
            let p = before.pending_transactions[j];
            &&& q.idempotency_key == Some(p.idempotency_key)
            &&& q.account_id == p.account_id
            &&& after == before
            &&& already_locked(before, q)
            &&& answer_id(before, q, request_id) == p.id
            &&& result matches Ok(funds) ==> {
                &&& funds.total_value == p.total_value
                &&& funds.fee_without_change == p.fee_without_change
                &&& funds.fee_with_change == p.fee_with_change
                &&& funds.requires_change_output == p.requires_change_output
            }
        },
        j == before.pending_transactions.len() ==> {
            let expiry = now.seconds + (if q.seconds_to_lock_utxos <= i64::MAX {
                q.seconds_to_lock_utxos as int
            } else {
                q.seconds_to_lock_utxos - 0x1_0000_0000_0000_0000
            });
            &&& !already_locked(before, q)
            &&& result is Ok ==> after.pending_transactions.len()
                == before.pending_transactions.len() + 1
            &&& result is Ok ==> -8_334_601_228_800 <= expiry <= 8_210_266_876_799
            &&& result matches Err(LockError::ExpiryOutOfRange) ==> !(-8_334_601_228_800 <= expiry
                <= 8_210_266_876_799)
        },
{
    if q.idempotency_key is Some {
        lemma_first_pending(before.pending_transactions, q.idempotency_key->0, q.account_id)
    } else {
        before.pending_transactions.len() as int
    }
}

proof fn lemma_first_pending(pending: Seq<PendingRecord>, key: Seq<char>, account_id: i64) -> (j:
    int)
    ensures
        0 <= j <= pending.len(),
        forall|m: int|
            0 <= m < j ==> (#[trigger] pending[m]).idempotency_key != key || pending[m].account_id
                != account_id,
        j < pending.len() ==> pending[j].idempotency_key == key && pending[j].account_id
            == account_id,
        pending_for(pending, key, account_id) == if j < pending.len() {
            Some(pending[j])
        } else {
            None
        },
    decreases pending.len(),
{
    if pending.len() == 0 {
        0
    } else {
        let front = pending.drop_last();
        let j = lemma_first_pending(front, key, account_id);
        assert(forall|m: int| 0 <= m < front.len() ==> front[m] == pending[m]);
        if j < front.len() {
            j
        } else if pending.last().idempotency_key == key && pending.last().account_id
            == account_id {
            pending.len() - 1
        } else {
            pending.len() as int
        }
    }
}

/// The answer from an earlier lock consists of the rows that stand under the id of that lock: every
/// such row is in it, at the place that is named here, and nothing else is.
pub proof fn law_earlier_funds_are_the_held_rows(
    before: WalletState,
    after: WalletState,
    q: LockRequest,
    now: UtcTime,
    new_key: Seq<char>,
    request_id: Seq<char>,
    funds: LockFundsResult,
    k: int,
    m: int,
) -> (places: (int, int))
    requires
        before.wf(),
        lock_outcome(before, after, q, now, new_key, request_id, Ok(funds)),
        already_locked(before, q),
        0 <= k < before.outputs.len(),
        before.outputs[k].locked_by_request_id == Some(answer_id(before, q, request_id)),
        0 <= m < funds.utxos@.len(),
    ensures
        0 <= places.0 < funds.utxos@.len(),
        before.outputs[k].wallet_output_json == Some(funds.utxos@[places.0].json@),
        0 <= places.1 < before.outputs.len(),
        before.outputs[places.1].locked_by_request_id == Some(answer_id(before, q, request_id)),
        before.outputs[places.1].wallet_output_json == Some(funds.utxos@[m].json@),
        decoded_wallet_output(funds.utxos@[m].json@) == Some(
            (
                funds.utxos@[m].value.0,
                funds.utxos@[m].maturity,
                funds.utxos@[m].output_hash@,
            ),
        ),
{
    let id = answer_id(before, q, request_id);
    let rows = before.outputs.filter(locked_by(id));
    assert(funds@.utxos.len() == funds.utxos@.len());
    assert(answer_rows(before, q).len() == rows.len());
    let i = lemma_row_is_selected(before.outputs, locked_by(id), k);
    assert(decodable(rows[i]));
    assert(funds@.utxos[i] == funds.utxos@[i]@);
    assert(funds@.utxos[i] == stored_output(rows[i]).output);
    let a = lemma_answer_row(before, after, q, now, new_key, request_id, funds, m);
    assert(funds@.utxos[m] == funds.utxos@[m]@);
    (i, a)
}

proof fn lemma_part_of_rows(part: Seq<OutputRecord>, whole: Seq<OutputRecord>)
    requires
        part.to_multiset().subset_of(whole.to_multiset()),
    ensures
        output_values(stored_outputs(part)).to_multiset().subset_of(
            output_values(stored_outputs(whole)).to_multiset(),
        ),
    decreases part.len(),
{
    broadcast use vstd::seq_lib::group_to_multiset_ensures;

    let f = |rows: Seq<OutputRecord>| output_values(stored_outputs(rows));
    if part.len() == 0 {
        assert(f(part).to_multiset().len() == 0);
    } else {
        let last = part.last();
        let n = part.len() - 1;
        assert(part.contains(last));
        assert(part.to_multiset().count(last) > 0);
        assert(whole.contains(last));
        let i = choose|i: int| 0 <= i < whole.len() && whole[i] == last;
        assert(part.remove(n) =~= part.drop_last());
        assert(part.drop_last().to_multiset().subset_of(whole.remove(i).to_multiset()));
        lemma_part_of_rows(part.drop_last(), whole.remove(i));
        assert(f(part).remove(n) =~= f(part.drop_last()));
        assert(f(whole).remove(i) =~= f(whole.remove(i)));
        assert(f(part)[n] == f(whole)[i]);
        let v = f(part)[n];
        assert(f(part).contains(v));
        assert(f(whole).contains(v));
        assert(f(part).to_multiset() =~= f(part.drop_last()).to_multiset().insert(v));
        assert(f(whole).to_multiset() =~= f(whole.remove(i)).to_multiset().insert(v));
    }
}

/// Rows that are worth the amount and the fee are not passed over: where the account has different
/// rows that are unspent, neither deleted nor burned, mature and deep enough below the tip, and
/// their outputs together are worth the amount and the fee for a transaction with these inputs, a
/// request is not refused for a lack of funds, as long as the sums of the search stay in range. It is
/// then answered with funds, if all rows of that kind can be read and the calendar reaches the time
/// at which the lock expires.
pub proof fn law_sufficient_rows_are_enough(
    before: WalletState,
    after: WalletState,
    q: LockRequest,
    now: UtcTime,
    new_key: Seq<char>,
    request_id: Seq<char>,
    result: Result<LockFundsResult, LockError>,
    tip: u64,
    size: usize,
    places: Seq<int>,
)
    requires
        before.wf(),
        lock_outcome(before, after, q, now, new_key, request_id, result),
        answered_rightly(before, q, result),
        !already_locked(before, q),
        request_searchable(before, q),
        forall|b: int|
            0 <= b < before.scanned_tip_blocks.len() && (
            #[trigger] before.scanned_tip_blocks[b]).account_id == q.account_id
                ==> before.scanned_tip_blocks[b].height <= tip,
        tip == 0 || exists|b: int|
            0 <= b < before.scanned_tip_blocks.len() && (
            #[trigger] before.scanned_tip_blocks[b]).account_id == q.account_id
                && before.scanned_tip_blocks[b].height == tip,
        q.estimated_output_size == Some(size) || q.estimated_output_size is None && size == 64,
        size * q.num_outputs <= usize::MAX,
        places.no_duplicates(),
        forall|m: int|
            0 <= m < places.len() ==> {
                let r = before.outputs[#[trigger] places[m]];
                let highest = if tip >= q.confirmation_window {
                    tip - q.confirmation_window
                } else {
                    0
                };
                &&& 0 <= places[m] < before.outputs.len()
                &&& r.account_id == q.account_id
                &&& r.status == OutputStatus::Unspent
                &&& r.deleted_at is None
                &&& !r.is_burn
                &&& 0 <= r.maturity
                &&& r.maturity <= tip
                &&& r.mined_in_block_height <= (if highest <= i64::MAX { highest } else {
                    highest - 0x1_0000_0000_0000_0000
                })
                &&& r.wallet_output_json is Some
                &&& decoded_wallet_output(r.wallet_output_json->0) is Some
            },
        q.amount.0 + q.fee_per_gram.0 * (10 + 53 * q.num_outputs + (size * q.num_outputs) / 16 + 8
            * places.len()) <= u64::MAX,
        amount_sum(
            places.map_values(
                |k: int|
                    (decoded_wallet_output(before.outputs[k].wallet_output_json->0)->0).0,
            ),
        ) >= q.amount.0 + q.fee_per_gram.0 * (10 + 53 * q.num_outputs + (size * q.num_outputs) / 16
            + 8 * places.len()),
    ensures
        !(result matches Err(LockError::Selection(SelectionError::InsufficientFunds))),
        ({
            let expiry = now.seconds + (if q.seconds_to_lock_utxos <= i64::MAX {
                q.seconds_to_lock_utxos as int
            } else {
                q.seconds_to_lock_utxos - 0x1_0000_0000_0000_0000
            });
            &&& -8_334_601_228_800 <= expiry <= 8_210_266_876_799
            &&& forall|k: int|
                0 <= k < before.outputs.len() && (#[trigger] before.outputs[k]).account_id
                    == q.account_id && before.outputs[k].status == OutputStatus::Unspent
                    && before.outputs[k].deleted_at is None && !before.outputs[k].is_burn
                    ==> before.outputs[k].wallet_output_json is Some && decoded_wallet_output(
                    before.outputs[k].wallet_output_json->0,
                ) is Some
        }) ==> result is Ok,
{
    broadcast use vstd::seq_lib::group_to_multiset_ensures;

    lemma_tip(before.scanned_tip_blocks, q.account_id, tip);
    let p = spendable(q.account_id, confirmation_height(tip, q.confirmation_window), tip);
    let kept = before.outputs.filter(p);
    let rows = q.rows(before);
    let part = places.map_values(|k: int| before.outputs[k]);
    law_ordering_keeps_the_rows(kept);
    assert forall|m: int| 0 <= m < part.len() implies rows.contains(#[trigger] part[m]) by {
        let k = places[m];
        assert(p(before.outputs[k]));
        let h = lemma_row_is_selected(before.outputs, p, k);
        assert(kept.contains(before.outputs[k]));
        assert(kept.to_multiset().count(before.outputs[k]) > 0);
    }
    assert(part.no_duplicates()) by {
        assert forall|a: int, b: int|
            0 <= a < part.len() && 0 <= b < part.len() && a != b implies part[a] != part[b] by {
            assert(places[a] != places[b]);
            let x = before.outputs[places[a]];
            let y = before.outputs[places[b]];
            assert(x.id != y.id);
        }
    }
    part.lemma_multiset_has_no_duplicates();
    assert(part.to_multiset().subset_of(rows.to_multiset())) by {
        assert forall|x: OutputRecord|
            part.to_multiset().count(x) <= rows.to_multiset().count(x) by {
            if part.to_multiset().count(x) > 0 {
                assert(part.contains(x));
                let m = choose|m: int| 0 <= m < part.len() && part[m] == x;
                assert(rows.contains(part[m]));
                assert(rows.to_multiset().count(x) > 0);
            }
        }
    }
    lemma_part_of_rows(part, rows);
    let mine = output_values(stored_outputs(part));
    let values = output_values(stored_outputs(rows));
    assert(mine =~= places.map_values(
        |k: int| (decoded_wallet_output(before.outputs[k].wallet_output_json->0)->0).0,
    ));
    let fees = q.fees();
    lemma_net_sum_subset(mine, values, fees.fee_per_input.0);
    lemma_net_sum_bound(mine, fees.fee_per_input.0);
    let rate = q.fee_per_gram.0 as int;
    let n = places.len() as int;
    let grams = 10 + 53 * q.num_outputs + (size * q.num_outputs) / 16;
    assert(size * q.num_outputs >= 0) by (nonlinear_arith);
    assert(output_size(q.estimated_output_size) == size);
    lemma_fee_parts(q.num_outputs, q.fee_per_gram, size);
    lemma_products(rate, grams, n, 0);
    assert(fees.output_fee.0 == rate * grams);
    assert(n * fees.fee_per_input.0 == n * (8 * rate)) by {
        if n == 0 {
            assert(n * fees.fee_per_input.0 == 0) by (nonlinear_arith)
                requires
                    n == 0,
            ;
        } else {
            assert(8 * rate <= u64::MAX);
        }
    }
    if let Err(LockError::Selection(SelectionError::Db(e))) = result {
        assert(rows_read(rows, Err(e)));
        let j = choose|j: int| 0 <= j < rows.len() && !decodable(#[trigger] rows[j]);
        assert(!decodable(rows[j]));
        let k = lemma_row_of_sorted(before.outputs, p, j);
        assert(before.outputs[k].account_id == q.account_id);
    }
}

proof fn lemma_amount_sum_bound(values: Seq<u64>, most: u64)
    requires
        forall|i: int| 0 <= i < values.len() ==> #[trigger] values[i] <= most,
    ensures
        0 <= amount_sum(values) <= values.len() * most,
    decreases values.len(),
{
    let n = values.len() as int;
    if n > 0 {
        let front = values.drop_last();
        assert(forall|i: int| 0 <= i < front.len() ==> front[i] == values[i]);
        lemma_amount_sum_bound(front, most);
        assert(values[n - 1] <= most);
        assert(n * most == (n - 1) * most + most) by (nonlinear_arith);
    } else {
        assert(n * most == 0) by (nonlinear_arith)
            requires
                n == 0,
        ;
    }
}

/// The sums of a search stay in range wherever the wallet has no more rows than a transaction can
/// have inputs, all rows can be read, and neither their worth nor the fee for spending all of them is
/// too large for an amount.
pub proof fn law_ordinary_requests_can_be_searched(
    state: WalletState,
    q: LockRequest,
    size: usize,
    most: u64,
)
    requires
        q.estimated_output_size == Some(size) || q.estimated_output_size is None && size == 64,
        size * q.num_outputs <= usize::MAX,
        state.outputs.len() <= 12_500,
        forall|k: int|
            0 <= k < state.outputs.len() ==> {
                &&& (#[trigger] state.outputs[k]).wallet_output_json is Some
                &&& decoded_wallet_output(state.outputs[k].wallet_output_json->0) is Some
                &&& (decoded_wallet_output(state.outputs[k].wallet_output_json->0)->0).0 <= most
            },
        state.outputs.len() * most <= u64::MAX,
        q.amount.0 + q.fee_per_gram.0 * (10 + 53 * q.num_outputs + (size * q.num_outputs) / 16 + 8
            * state.outputs.len()) <= u64::MAX,
    ensures
        request_searchable(state, q),
{
    let tip = tip_height(state.scanned_tip_blocks, q.account_id);
    let p = spendable(q.account_id, confirmation_height(tip, q.confirmation_window), tip);
    let kept = state.outputs.filter(p);
    let rows = q.rows(state);
    let values = output_values(stored_outputs(rows));
    state.outputs.lemma_filter_len(p);
    law_ordering_keeps_the_rows(kept);
    assert forall|i: int| 0 <= i < values.len() implies #[trigger] values[i] <= most by {
        let k = lemma_row_of_sorted(state.outputs, p, i);
        assert(rows[i] == state.outputs[k]);
        assert(values[i] == (decoded_wallet_output(
            state.outputs[k].wallet_output_json->0,
        )->0).0);
    }
    lemma_amount_sum_bound(values, most);
    let rate = q.fee_per_gram.0 as int;
    let n = rows.len() as int;
    let all = state.outputs.len() as int;
    let grams = 10 + 53 * q.num_outputs + (size * q.num_outputs) / 16;
    let fees = q.fees();
    assert(size * q.num_outputs >= 0) by (nonlinear_arith);
    assert(output_size(q.estimated_output_size) == size);
    lemma_fee_parts(q.num_outputs, q.fee_per_gram, size);
    lemma_products(rate, grams, all, 0);
    assert(n * most <= all * most) by (nonlinear_arith)
        requires
            0 <= n <= all,
    ;
    if n > 0 {
        assert(fees.fee_per_input.0 == 8 * rate);
    }
    assert(n * fees.fee_per_input.0 <= all * (8 * rate)) by {
        if n == 0 {
            assert(n * fees.fee_per_input.0 == 0) by (nonlinear_arith)
                requires
                    n == 0,
            ;
        } else {
            assert(n * (8 * rate) <= all * (8 * rate)) by (nonlinear_arith)
                requires
                    0 <= n <= all,
                    rate >= 0,
            ;
        }
    }
    assert(fees.output_fee.0 == rate * grams);
}

/// A request whose funds are already locked is answered with them wherever the rows that stand under
/// the lock can be read.
pub proof fn law_earlier_funds_are_found(
    before: WalletState,
    after: WalletState,
    q: LockRequest,
    now: UtcTime,
    new_key: Seq<char>,
    request_id: Seq<char>,
    result: Result<LockFundsResult, LockError>,
)
    requires
        lock_outcome(before, after, q, now, new_key, request_id, result),
        already_locked(before, q),
        forall|k: int|
            0 <= k < before.outputs.len() && (#[trigger] before.outputs[k]).locked_by_request_id
                == Some(answer_id(before, q, request_id))
                ==> before.outputs[k].wallet_output_json is Some && decoded_wallet_output(
                before.outputs[k].wallet_output_json->0,
            ) is Some,
    ensures
        result is Ok,
{
    let id = answer_id(before, q, request_id);
    let rows = before.outputs.filter(locked_by(id));
    if let Err(LockError::Db(e)) = result {
        assert(rows_read(rows, Err(e)));
        let j = choose|j: int| 0 <= j < rows.len() && !decodable(#[trigger] rows[j]);
        assert(!decodable(rows[j]));
        let k = lemma_row_of_selection(before.outputs, locked_by(id), j);
        assert(before.outputs[k].locked_by_request_id == Some(id));
    }
}

} // verus!
