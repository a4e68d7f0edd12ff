//! What holds of locking funds as a whole.
use crate::api::types::LockFundsResult;
use crate::db::laws::{law_ordering_keeps_the_rows, owned};
use crate::db::outputs::{
    confirmation_height, decodable, locked_by, rows_read, spendable, stored_output, without_lock,
    DbWalletOutputFacts,
};
use crate::db::pending_transactions::{locked_funds, pending_for};
use crate::db::query::{by_value_descending, value_sum};
use crate::db::scanned_tip_blocks::tip_height;
use crate::db::tables::{OutputRecord, PendingRecord, WalletState};
use crate::models::{as_signed, OutputStatus, UtcTime};
use crate::transactions::fund_locker::{
    already_locked, lock_outcome, lock_result, locked_state, output_ids, with_locks, LockError,
    LockRequest,
};
use crate::transactions::input_selector::{
    picked, readable, search_among, stored_outputs, UtxoSelectionFacts,
};
use vstd::multiset::Multiset;
use vstd::prelude::*;

verus! {

/// Whether no two rows have the same id.
spec fn ids_differ(rows: Seq<OutputRecord>) -> bool {
    forall|i: int, j: int|
        0 <= i < rows.len() && 0 <= j < rows.len() && i != j ==> (#[trigger] rows[i]).id != (
        #[trigger] rows[j]).id
}

/// Whether no two outputs have the same id.
spec fn output_ids_differ(outputs: Seq<DbWalletOutputFacts>) -> bool {
    forall|i: int, j: int|
        0 <= i < outputs.len() && 0 <= j < outputs.len() && i != j ==> (#[trigger] outputs[i]).id
            != (#[trigger] outputs[j]).id
}

proof fn lemma_filter_keeps_ids_apart(rows: Seq<OutputRecord>, p: spec_fn(OutputRecord) -> bool)
    requires
        ids_differ(rows),
    ensures
        ids_differ(rows.filter(p)),
    decreases rows.len(),
{
    reveal(Seq::filter);
    if rows.len() > 0 {
        let front = rows.drop_last();
        assert(forall|i: int| 0 <= i < front.len() ==> front[i] == rows[i]);
        lemma_filter_keeps_ids_apart(front, p);
        if p(rows.last()) {
            let kept = front.filter(p);
            assert forall|i: int| 0 <= i < kept.len() implies (#[trigger] kept[i]).id
                != rows.last().id by {
                assert(kept.contains(kept[i]));
                front.lemma_filter_contains_rev(p, kept[i]);
                let k = choose|k: int| 0 <= k < front.len() && front[k] == kept[i];
                assert(rows[k] == kept[i]);
            }
        }
    }
}

proof fn lemma_ordering_keeps_ids_apart(rows: Seq<OutputRecord>)
    requires
        ids_differ(rows),
    ensures
        ids_differ(by_value_descending(rows)),
        forall|i: int|
            0 <= i < rows.len() ==> rows.contains(#[trigger] by_value_descending(rows)[i]),
        by_value_descending(rows).len() == rows.len(),
{
    broadcast use vstd::seq_lib::group_to_multiset_ensures;

    law_ordering_keeps_the_rows(rows);
    let sorted = by_value_descending(rows);
    assert(rows.no_duplicates());
    rows.lemma_multiset_has_no_duplicates();
    sorted.lemma_multiset_has_no_duplicates_conv();
    assert forall|i: int| 0 <= i < sorted.len() implies rows.contains(#[trigger] sorted[i]) by {
        assert(sorted.contains(sorted[i]));
        assert(sorted.to_multiset().count(sorted[i]) > 0);
    }
    assert forall|i: int, j: int|
        0 <= i < sorted.len() && 0 <= j < sorted.len() && i != j implies (#[trigger] sorted[i]).id
        != (#[trigger] sorted[j]).id by {
        assert(rows.contains(sorted[i]) && rows.contains(sorted[j]));
        let a = choose|a: int| 0 <= a < rows.len() && rows[a] == sorted[i];
        let b = choose|b: int| 0 <= b < rows.len() && rows[b] == sorted[j];
        assert(sorted[i] != sorted[j]);
        assert(rows[a].id != rows[b].id);
    }
}

proof fn lemma_picked_is_part(candidates: Seq<DbWalletOutputFacts>, wanted: Multiset<u64>)
    ensures
        forall|i: int|
            0 <= i < picked(candidates, wanted).len() ==> candidates.contains(
                #[trigger] picked(candidates, wanted)[i],
            ),
        output_ids_differ(candidates) ==> output_ids_differ(picked(candidates, wanted)),
    decreases candidates.len(),
{
    if candidates.len() > 0 {
        let rest = candidates.drop_first();
        let first = candidates.first();
        let value = first.output.value.0;
        let fewer = if wanted.count(value) > 0 {
            wanted.remove(value)
        } else {
            wanted
        };
        lemma_picked_is_part(rest, fewer);
        let tail = picked(rest, fewer);
        let all = picked(candidates, wanted);
        assert forall|i: int| 0 <= i < tail.len() implies candidates.contains(
            #[trigger] tail[i],
        ) && (output_ids_differ(candidates) ==> tail[i].id != first.id) by {
            assert(rest.contains(tail[i]));
            let k = choose|k: int| 0 <= k < rest.len() && rest[k] == tail[i];
            assert(candidates[k + 1] == tail[i]);
            assert(candidates[0] == first);
        }
        assert(candidates[0] == first);
        assert(output_ids_differ(candidates) ==> output_ids_differ(rest)) by {
            assert(forall|i: int| 0 <= i < rest.len() ==> rest[i] == candidates[i + 1]);
        }
        if wanted.count(value) > 0 {
            assert(all == seq![first] + tail);
            assert(all[0] == first);
            assert forall|i: int| 0 <= i < all.len() implies candidates.contains(
                #[trigger] all[i],
            ) by {
                if i > 0 {
                    assert(all[i] == tail[i - 1]);
                }
            }
            if output_ids_differ(candidates) {
                assert forall|i: int, j: int|
                    0 <= i < all.len() && 0 <= j < all.len() && i != j implies (
                #[trigger] all[i]).id != (#[trigger] all[j]).id by {
                    if i > 0 {
                        assert(all[i] == tail[i - 1]);
                    }
                    if j > 0 {
                        assert(all[j] == tail[j - 1]);
                    }
                }
            }
        } else {
            assert(all == tail);
        }
    }
}

/// The outputs that are chosen for a request are distinct, and each of them is stored in a row that
/// the account can spend: unspent, deep enough in the chain, mature, not deleted and not burned.
pub proof fn law_chosen_outputs_are_spendable(state: WalletState, q: LockRequest, i: int)
    requires
        state.wf(),
        q.selection(state) is Some,
        0 <= i < q.selection(state)->0.utxos.len(),
    ensures
        ({
            let tip = tip_height(state.scanned_tip_blocks, q.account_id);
            let lowest = confirmation_height(tip, q.confirmation_window);
            let utxos = q.selection(state)->0.utxos;
            &&& exists|k: int|
                0 <= k < state.outputs.len() && spendable(q.account_id, lowest, tip)(
                    #[trigger] state.outputs[k],
                ) && utxos[i] == stored_output(state.outputs[k])
            &&& forall|j: int| 0 <= j < utxos.len() && j != i ==> (#[trigger] utxos[j]).id
                != utxos[i].id
        }),
{
    let tip = tip_height(state.scanned_tip_blocks, q.account_id);
    let lowest = confirmation_height(tip, q.confirmation_window);
    let p = spendable(q.account_id, lowest, tip);
    let kept = state.outputs.filter(p);
    let rows = q.rows(state);
    let candidates = stored_outputs(rows);
    let found = search_among(candidates, q.amount, q.fees())->0;
    let utxos = q.selection(state)->0.utxos;
    assert(ids_differ(state.outputs));
    lemma_filter_keeps_ids_apart(state.outputs, p);
    lemma_ordering_keeps_ids_apart(kept);
    assert(output_ids_differ(candidates)) by {
        assert(forall|a: int| 0 <= a < candidates.len() ==> (#[trigger] candidates[a]).id
            == rows[a].id);
    }
    lemma_picked_is_part(candidates, found.0.to_multiset());
    assert(candidates.contains(utxos[i]));
    let a = choose|a: int| 0 <= a < candidates.len() && candidates[a] == utxos[i];
    assert(utxos[i] == stored_output(rows[a]));
    assert(kept.contains(rows[a]));
    let b = choose|b: int| 0 <= b < kept.len() && kept[b] == rows[a];
    state.outputs.lemma_filter_pred(p, b);
    state.outputs.lemma_filter_contains_rev(p, rows[a]);
    let k = choose|k: int| 0 <= k < state.outputs.len() && state.outputs[k] == rows[a];
    assert(p(state.outputs[k]));
}

/// Two requests that are answered one after the other never get the same output.
pub proof fn law_locked_outputs_are_disjoint(
    before: WalletState,
    first: LockRequest,
    second: LockRequest,
    idempotency_key: Seq<char>,
    request_id: Seq<char>,
    expires_at: UtcTime,
    i: int,
    j: int,
)
    requires
        before.wf(),
        first.selection(before) is Some,
        ({
            let after = locked_state(
                before,
                first.account_id,
                first.selection(before)->0,
                idempotency_key,
                request_id,
                expires_at,
            );
            &&& second.selection(after) is Some
            &&& 0 <= j < second.selection(after)->0.utxos.len()
        }),
        0 <= i < first.selection(before)->0.utxos.len(),
    ensures
        ({
            let after = locked_state(
                before,
                first.account_id,
                first.selection(before)->0,
                idempotency_key,
                request_id,
                expires_at,
            );
            first.selection(before)->0.utxos[i].id != second.selection(after)->0.utxos[j].id
        }),
{
    let chosen = first.selection(before)->0;
    let ids = output_ids(chosen.utxos);
    let after = locked_state(
        before,
        first.account_id,
        chosen,
        idempotency_key,
        request_id,
        expires_at,
    );
    assert(after.wf()) by {
        assert(forall|k: int| 0 <= k < after.outputs.len() ==> (#[trigger] after.outputs[k]).id
            == before.outputs[k].id);
    }
    law_chosen_outputs_are_spendable(before, first, i);
    law_chosen_outputs_are_spendable(after, second, j);
    let a = choose|k: int|
        0 <= k < before.outputs.len() && (#[trigger] before.outputs[k]).status
            == OutputStatus::Unspent && chosen.utxos[i] == stored_output(before.outputs[k]);
    let b = choose|k: int|
        0 <= k < after.outputs.len() && (#[trigger] after.outputs[k]).status
            == OutputStatus::Unspent && second.selection(after)->0.utxos[j] == stored_output(
            after.outputs[k],
        );
    assert(after.outputs[b] == with_locks(before.outputs[b], ids, request_id, expires_at));
    assert(after.outputs[a] == with_locks(before.outputs[a], ids, request_id, expires_at));
    assert(ids[i] == before.outputs[a].id);
    assert(ids.contains(before.outputs[a].id));
    assert(after.outputs[a].status == OutputStatus::Locked);
    if before.outputs[a].id == after.outputs[b].id {
        assert(before.outputs[b].id == after.outputs[b].id);
        assert(a == b);
    }
}

proof fn lemma_same_outputs(a: Seq<DbWalletOutputFacts>, b: Seq<DbWalletOutputFacts>)
    requires
        output_ids_differ(a),
        output_ids_differ(b),
        forall|i: int| 0 <= i < a.len() ==> b.contains(#[trigger] a[i]),
        forall|i: int| 0 <= i < b.len() ==> a.contains(#[trigger] b[i]),
    ensures
        a.to_multiset() == b.to_multiset(),
{
    broadcast use vstd::seq_lib::group_to_multiset_ensures;

    assert(a.no_duplicates());
    assert(b.no_duplicates());
    a.lemma_multiset_has_no_duplicates();
    b.lemma_multiset_has_no_duplicates();
    assert forall|x: DbWalletOutputFacts| a.to_multiset().count(x) == b.to_multiset().count(x) by {
        if a.contains(x) {
            let i = choose|i: int| 0 <= i < a.len() && a[i] == x;
            assert(b.contains(a[i]));
        }
        if b.contains(x) {
            let i = choose|i: int| 0 <= i < b.len() && b[i] == x;
            assert(a.contains(b[i]));
        }
        assert(a.to_multiset().count(x) > 0 <==> a.contains(x));
        assert(b.to_multiset().count(x) > 0 <==> b.contains(x));
    }
    assert(a.to_multiset() =~= b.to_multiset());
}

proof fn lemma_same_wallet_outputs(a: Seq<DbWalletOutputFacts>, b: Seq<DbWalletOutputFacts>)
    requires
        a.to_multiset() == b.to_multiset(),
    ensures
        a.map_values(|o: DbWalletOutputFacts| o.output).to_multiset() == b.map_values(
            |o: DbWalletOutputFacts| o.output,
        ).to_multiset(),
    decreases a.len(),
{
    broadcast use vstd::seq_lib::group_to_multiset_ensures;

    let f = |o: DbWalletOutputFacts| o.output;
    assert(a.len() == a.to_multiset().len());
    assert(b.len() == b.to_multiset().len());
    if a.len() == 0 {
        assert(a.map_values(f) =~= b.map_values(f));
    } else {
        let last = a.last();
        let n = a.len() - 1;
        assert(a.contains(last));
        assert(b.to_multiset().count(last) > 0);
        let i = choose|i: int| 0 <= i < b.len() && b[i] == last;
        assert(a.remove(n) =~= a.drop_last());
        assert(a.drop_last().to_multiset() == b.remove(i).to_multiset());
        lemma_same_wallet_outputs(a.drop_last(), b.remove(i));
        assert(a.map_values(f).remove(n) =~= a.drop_last().map_values(f));
        assert(b.map_values(f).remove(i) =~= b.remove(i).map_values(f));
        assert(a.map_values(f)[n] == last.output);
        assert(b.map_values(f)[i] == last.output);
        let rest = a.map_values(f).to_multiset().remove(last.output);
        assert(a.map_values(f).contains(last.output));
        assert(b.map_values(f).contains(last.output));
        assert(a.map_values(f).to_multiset() =~= rest.insert(last.output));
        assert(b.map_values(f).to_multiset() =~= rest.insert(last.output));
    }
}

/// The outputs that stand under a new request id after a lock are the chosen ones.
proof fn lemma_locked_rows_are_the_chosen(
    before: WalletState,
    q: LockRequest,
    request_id: Seq<char>,
    expires_at: UtcTime,
)
    requires
        before.wf(),
        readable(q.rows(before)),
        q.selection(before) is Some,
        forall|i: int|
            0 <= i < before.outputs.len() ==> !locked_by(request_id)(#[trigger] before.outputs[i]),
    ensures
        ({
            let chosen = q.selection(before)->0;
            let ids = output_ids(chosen.utxos);
            let held = before.outputs.map_values(
                |r: OutputRecord| with_locks(r, ids, request_id, expires_at),
            ).filter(locked_by(request_id));
            &&& readable(held)
            &&& stored_outputs(held).to_multiset() == chosen.utxos.to_multiset()
        }),
{
    let chosen = q.selection(before)->0;
    let ids = output_ids(chosen.utxos);
    let after = before.outputs.map_values(
        |r: OutputRecord| with_locks(r, ids, request_id, expires_at),
    );
    let p = locked_by(request_id);
    let held = after.filter(p);
    let found = stored_outputs(held);
    assert forall|i: int| 0 <= i < after.len() implies (#[trigger] after[i]).id
        == before.outputs[i].id && stored_output(after[i]) == stored_output(before.outputs[i]) by {}
    assert(ids_differ(after));
    lemma_filter_keeps_ids_apart(after, p);
    assert(output_ids_differ(found)) by {
        assert(forall|a: int| 0 <= a < found.len() ==> (#[trigger] found[a]).id == held[a].id);
    }
    assert(output_ids_differ(chosen.utxos)) by {
        assert forall|i: int, j: int|
            0 <= i < chosen.utxos.len() && 0 <= j < chosen.utxos.len() && i != j implies (
        #[trigger] chosen.utxos[i]).id != (#[trigger] chosen.utxos[j]).id by {
            law_chosen_outputs_are_spendable(before, q, i);
        }
    }
    assert forall|i: int| 0 <= i < chosen.utxos.len() implies found.contains(
        #[trigger] chosen.utxos[i],
    ) by {
        law_chosen_outputs_are_spendable(before, q, i);
        let k = choose|k: int|
            0 <= k < before.outputs.len() && (#[trigger] before.outputs[k]).status
                == OutputStatus::Unspent && chosen.utxos[i] == stored_output(before.outputs[k]);
        assert(ids[i] == before.outputs[k].id);
        assert(ids.contains(before.outputs[k].id));
        assert(p(after[k]));
        after.lemma_filter_contains(p, k);
        let h = choose|h: int| 0 <= h < held.len() && held[h] == after[k];
        assert(found[h] == chosen.utxos[i]);
    }
    assert forall|i: int| 0 <= i < found.len() implies chosen.utxos.contains(#[trigger] found[i])
        && decodable(held[i]) by {
        after.lemma_filter_pred(p, i);
        assert(held.contains(held[i]));
        after.lemma_filter_contains_rev(p, held[i]);
        let k = choose|k: int| 0 <= k < after.len() && after[k] == held[i];
        assert(!p(before.outputs[k]));
        assert(ids.contains(before.outputs[k].id));
        let u = choose|u: int| 0 <= u < ids.len() && ids[u] == before.outputs[k].id;
        assert(chosen.utxos[u].id == before.outputs[k].id);
        lemma_chosen_row_is_readable(before, q, u, k);
        assert(found[i] == stored_output(before.outputs[k]));
    }
    assert(readable(held)) by {
        assert forall|i: int| 0 <= i < held.len() implies decodable(#[trigger] held[i]) by {
            assert(chosen.utxos.contains(found[i]));
        }
    }
    lemma_same_outputs(found, chosen.utxos);
}

/// The row with the id of a chosen output is the row that the output was read from.
proof fn lemma_chosen_row_is_readable(state: WalletState, q: LockRequest, i: int, k: int)
    requires
        state.wf(),
        readable(q.rows(state)),
        q.selection(state) is Some,
        0 <= i < q.selection(state)->0.utxos.len(),
        0 <= k < state.outputs.len(),
        q.selection(state)->0.utxos[i].id == state.outputs[k].id,
    ensures
        q.selection(state)->0.utxos[i] == stored_output(state.outputs[k]),
        decodable(state.outputs[k]),
{
    let tip = tip_height(state.scanned_tip_blocks, q.account_id);
    let lowest = confirmation_height(tip, q.confirmation_window);
    let p = spendable(q.account_id, lowest, tip);
    let utxo = q.selection(state)->0.utxos[i];
    law_chosen_outputs_are_spendable(state, q, i);
    let a = choose|a: int|
        0 <= a < state.outputs.len() && p(#[trigger] state.outputs[a]) && utxo == stored_output(
            state.outputs[a],
        );
    assert(state.outputs[a].id == state.outputs[k].id);
    assert(a == k);
    state.outputs.lemma_filter_contains(p, k);
    let kept = state.outputs.filter(p);
    broadcast use vstd::seq_lib::group_to_multiset_ensures;

    law_ordering_keeps_the_rows(kept);
    let rows = q.rows(state);
    assert(kept.to_multiset().count(state.outputs[k]) > 0);
    assert(rows.contains(state.outputs[k]));
    let b = choose|b: int| 0 <= b < rows.len() && rows[b] == state.outputs[k];
    assert(decodable(rows[b]));
}

proof fn lemma_pending_push(
    pending: Seq<PendingRecord>,
    p: PendingRecord,
    key: Seq<char>,
    account_id: i64,
)
    ensures
        pending_for(pending.push(p), key, account_id) == match pending_for(
            pending,
            key,
            account_id,
        ) {
            Some(found) => Some(found),
            None => if p.idempotency_key == key && p.account_id == account_id {
                Some(p)
            } else {
                None
            },
        },
{
    assert(pending.push(p).drop_last() =~= pending);
}

/// Funds that have been locked under a key are found under it.
proof fn lemma_locked_funds_are_found(
    before: WalletState,
    q: LockRequest,
    again: LockRequest,
    new_key: Seq<char>,
    request_id: Seq<char>,
    expires_at: UtcTime,
)
    requires
        before.wf(),
        !already_locked(before, q),
        readable(q.rows(before)),
        q.selection(before) is Some,
        q.idempotency_key is Some,
        again.idempotency_key == q.idempotency_key,
        again.account_id == q.account_id,
        forall|i: int|
            0 <= i < before.outputs.len() ==> !locked_by(request_id)(#[trigger] before.outputs[i]),
    ensures
        ({
            let key = q.idempotency_key->0;
            let after = locked_state(
                before,
                q.account_id,
                q.selection(before)->0,
                q.key_or(new_key),
                request_id,
                expires_at,
            );
            let pending = pending_for(after.pending_transactions, key, q.account_id);
            let answer = lock_result(q.selection(before)->0);
            let found = locked_funds(after.outputs, pending->0);
            &&& already_locked(after, again)
            &&& pending->0.id == request_id
            &&& readable(after.outputs.filter(locked_by(request_id)))
            &&& found.utxos.to_multiset() == answer.utxos.to_multiset()
            &&& found.requires_change_output == answer.requires_change_output
            &&& found.total_value == answer.total_value
            &&& found.fee_without_change == answer.fee_without_change
            &&& found.fee_with_change == answer.fee_with_change
        }),
{
    let chosen = q.selection(before)->0;
    let after = locked_state(
        before,
        q.account_id,
        chosen,
        q.key_or(new_key),
        request_id,
        expires_at,
    );
    lemma_pending_push(
        before.pending_transactions,
        after.pending_transactions.last(),
        q.idempotency_key->0,
        q.account_id,
    );
    lemma_locked_rows_are_the_chosen(before, q, request_id, expires_at);
    let ids = output_ids(chosen.utxos);
    assert(after.outputs =~= before.outputs.map_values(
        |r: OutputRecord| with_locks(r, ids, request_id, expires_at),
    ));
    let held = after.outputs.filter(locked_by(request_id));
    lemma_same_wallet_outputs(stored_outputs(held), chosen.utxos);
    assert(held.map_values(|r: OutputRecord| stored_output(r).output) =~= stored_outputs(
        held,
    ).map_values(|o: DbWalletOutputFacts| o.output));
}

/// A request that is sent again under the key that its funds were locked under is answered with
/// these funds: the same outputs, the same worth and the same fees; and nothing more is locked. The
/// id that the lock was given must be new, that is, no output may stand under it already.
pub proof fn law_a_request_can_be_sent_again(
    before: WalletState,
    locked: WalletState,
    after: WalletState,
    q: LockRequest,
    again: LockRequest,
    now: UtcTime,
    later: UtcTime,
    new_key: Seq<char>,
    other_key: Seq<char>,
    request_id: Seq<char>,
    other_id: Seq<char>,
    answer: LockFundsResult,
    second: Result<LockFundsResult, LockError>,
)
    requires
        before.wf(),
        !already_locked(before, q),
        lock_outcome(before, locked, q, now, new_key, request_id, Ok(answer)),
        lock_outcome(locked, after, again, later, other_key, other_id, second),
        q.idempotency_key is Some,
        again.idempotency_key == q.idempotency_key,
        again.account_id == q.account_id,
        forall|i: int|
            0 <= i < before.outputs.len() ==> !locked_by(request_id)(#[trigger] before.outputs[i]),
    ensures
        after == locked,
        second is Ok,
        second->Ok_0@.utxos.to_multiset() == answer@.utxos.to_multiset(),
        second->Ok_0@.requires_change_output == answer@.requires_change_output,
        second->Ok_0@.total_value == answer@.total_value,
        second->Ok_0@.fee_without_change == answer@.fee_without_change,
        second->Ok_0@.fee_with_change == answer@.fee_with_change,
{
    let expiry = now.seconds + as_signed(q.seconds_to_lock_utxos);
    lemma_locked_funds_are_found(
        before,
        q,
        again,
        new_key,
        request_id,
        UtcTime { seconds: expiry as i64, nanos: now.nanos },
    );
    if second is Err {
        let held = locked.outputs.filter(locked_by(request_id));
        assert(readable(held));
        assert(rows_read(held, Err(second->Err_0->Db_0)));
    }
}

/// The ids of the rows that the answer to a request is made of: those of the outputs that are locked
/// under its key, or else of the outputs that are chosen for it.
pub open spec fn answer_rows(state: WalletState, q: LockRequest) -> Seq<i64> {
    if already_locked(state, q) {
        let p = pending_for(state.pending_transactions, q.idempotency_key->0, q.account_id)->0;
        state.outputs.filter(locked_by(p.id)).map_values(|r: OutputRecord| r.id)
    } else {
        output_ids(q.selection(state)->0.utxos)
    }
}

/// The id that the rows of an answer stand under: that of the transaction under the key of the
/// request, or else the new one.
pub open spec fn answer_id(state: WalletState, q: LockRequest, request_id: Seq<char>) -> Seq<char> {
    if already_locked(state, q) {
        pending_for(state.pending_transactions, q.idempotency_key->0, q.account_id)->0.id
    } else {
        request_id
    }
}

/// Whether the rows with the given ids are held by a request: they stand under its id and are not
/// free to be spent.
pub open spec fn held(state: WalletState, ids: Seq<i64>, request_id: Seq<char>) -> bool {
    forall|k: int|
        0 <= k < state.outputs.len() && ids.contains((#[trigger] state.outputs[k]).id)
            ==> locked_by(request_id)(state.outputs[k]) && state.outputs[k].status
            != OutputStatus::Unspent
}

/// Whether no row that stands under an id is free to be spent.
pub open spec fn none_unspent(state: WalletState, request_id: Seq<char>) -> bool {
    forall|k: int|
        0 <= k < state.outputs.len() && locked_by(request_id)(#[trigger] state.outputs[k])
            ==> state.outputs[k].status != OutputStatus::Unspent
}

/// A row that answers a request from an earlier lock stands under the id of that lock.
proof fn lemma_earlier_row(state: WalletState, request_id: Seq<char>, i: int) -> (k: int)
    requires
        0 <= i < state.outputs.filter(locked_by(request_id)).len(),
    ensures
        0 <= k < state.outputs.len(),
        locked_by(request_id)(state.outputs[k]),
        state.outputs[k] == state.outputs.filter(locked_by(request_id))[i],
{
    let p = locked_by(request_id);
    let rows = state.outputs.filter(p);
    state.outputs.lemma_filter_pred(p, i);
    assert(rows.contains(rows[i]));
    state.outputs.lemma_filter_contains_rev(p, rows[i]);
    choose|k: int| 0 <= k < state.outputs.len() && state.outputs[k] == rows[i]
}

/// Every output of an answer is read from the row that the answer names for it.
pub(crate) proof fn lemma_answer_row(
    state: WalletState,
    after: WalletState,
    q: LockRequest,
    now: UtcTime,
    new_key: Seq<char>,
    request_id: Seq<char>,
    funds: LockFundsResult,
    i: int,
) -> (k: int)
    requires
        state.wf(),
        lock_outcome(state, after, q, now, new_key, request_id, Ok(funds)),
        0 <= i < answer_rows(state, q).len(),
    ensures
        answer_rows(state, q).len() == funds@.utxos.len(),
        0 <= k < state.outputs.len(),
        state.outputs[k].id == answer_rows(state, q)[i],
        decodable(state.outputs[k]),
        funds@.utxos[i] == stored_output(state.outputs[k]).output,
        already_locked(state, q) ==> locked_by(answer_id(state, q, request_id))(state.outputs[k]),
        !already_locked(state, q) ==> state.outputs[k].status == OutputStatus::Unspent,
{
    if already_locked(state, q) {
        let id = answer_id(state, q, request_id);
        let rows = state.outputs.filter(locked_by(id));
        assert(decodable(rows[i]));
        lemma_earlier_row(state, id, i)
    } else {
        let utxos = q.selection(state)->0.utxos;
        law_chosen_outputs_are_spendable(state, q, i);
        let k = choose|k: int|
            0 <= k < state.outputs.len() && (#[trigger] state.outputs[k]).status
                == OutputStatus::Unspent && utxos[i] == stored_output(state.outputs[k]);
        lemma_chosen_row_is_readable(state, q, i, k);
        k
    }
}

/// An answer consists of as many outputs as rows, and the rows are held by its id once the request
/// has been answered, provided that none of the rows of an earlier lock had become free.
pub proof fn law_answered_rows_are_held(
    before: WalletState,
    after: WalletState,
    q: LockRequest,
    now: UtcTime,
    new_key: Seq<char>,
    request_id: Seq<char>,
    funds: LockFundsResult,
)
    requires
        before.wf(),
        lock_outcome(before, after, q, now, new_key, request_id, Ok(funds)),
        already_locked(before, q) ==> none_unspent(before, answer_id(before, q, request_id)),
    ensures
        after.wf(),
        answer_rows(before, q).len() == funds@.utxos.len(),
        held(after, answer_rows(before, q), answer_id(before, q, request_id)),
{
    let ids = answer_rows(before, q);
    let id = answer_id(before, q, request_id);
    assert(after.outputs.len() == before.outputs.len());
    assert(forall|k: int| 0 <= k < after.outputs.len() ==> (#[trigger] after.outputs[k]).id
        == before.outputs[k].id);
    assert forall|k: int|
        0 <= k < after.outputs.len() && ids.contains(
            (#[trigger] after.outputs[k]).id,
        ) implies locked_by(id)(after.outputs[k]) && after.outputs[k].status
        != OutputStatus::Unspent by {
        let i = choose|i: int| 0 <= i < ids.len() && ids[i] == after.outputs[k].id;
        let b = lemma_answer_row(before, after, q, now, new_key, request_id, funds, i);
        assert(before.outputs[b].id == before.outputs[k].id);
        assert(b == k);
    }
}

/// Rows that a request holds stay held, however other requests are answered.
pub proof fn law_requests_leave_held_rows_alone(
    before: WalletState,
    after: WalletState,
    ids: Seq<i64>,
    holder: Seq<char>,
    q: LockRequest,
    now: UtcTime,
    new_key: Seq<char>,
    request_id: Seq<char>,
    result: Result<LockFundsResult, LockError>,
)
    requires
        held(before, ids, holder),
        lock_outcome(before, after, q, now, new_key, request_id, result),
    ensures
        held(after, ids, holder),
{
    assert(after.outputs.len() == before.outputs.len());
    assert forall|k: int|
        0 <= k < after.outputs.len() && ids.contains(
            (#[trigger] after.outputs[k]).id,
        ) implies locked_by(holder)(after.outputs[k]) && after.outputs[k].status
        != OutputStatus::Unspent by {
        assert(after.outputs[k].id == before.outputs[k].id);
        assert(ids.contains(before.outputs[k].id));
        assert(after.outputs[k] == before.outputs[k]);
    }
}

/// As long as a request holds its rows, no other request is answered with any of them: neither one
/// for which funds are newly locked, nor one that is answered from a lock under another id.
pub proof fn law_held_rows_answer_no_other_request(
    state: WalletState,
    after: WalletState,
    ids: Seq<i64>,
    holder: Seq<char>,
    q: LockRequest,
    now: UtcTime,
    new_key: Seq<char>,
    request_id: Seq<char>,
    funds: LockFundsResult,
    j: int,
)
    requires
        state.wf(),
        held(state, ids, holder),
        lock_outcome(state, after, q, now, new_key, request_id, Ok(funds)),
        already_locked(state, q) ==> answer_id(state, q, request_id) != holder,
        0 <= j < answer_rows(state, q).len(),
    ensures
        !ids.contains(answer_rows(state, q)[j]),
{
    let k = lemma_answer_row(state, after, q, now, new_key, request_id, funds, j);
    assert(state.outputs[k].id == answer_rows(state, q)[j]);
}

/// Two requests that are answered one after the other never get the same row, whether their funds
/// are newly locked or were locked before. The second must not be answered from the lock that the
/// first was answered with, and no row of an earlier lock may have become free.
pub proof fn law_answers_share_no_row(
    before: WalletState,
    between: WalletState,
    after: WalletState,
    first: LockRequest,
    second: LockRequest,
    now: UtcTime,
    later: UtcTime,
    first_key: Seq<char>,
    second_key: Seq<char>,
    first_id: Seq<char>,
    second_id: Seq<char>,
    funds: LockFundsResult,
    others: LockFundsResult,
    i: int,
    j: int,
)
    requires
        before.wf(),
        lock_outcome(before, between, first, now, first_key, first_id, Ok(funds)),
        lock_outcome(between, after, second, later, second_key, second_id, Ok(others)),
        already_locked(before, first) ==> none_unspent(before, answer_id(before, first, first_id)),
        already_locked(between, second) ==> answer_id(between, second, second_id) != answer_id(
            before,
            first,
            first_id,
        ),
        0 <= i < answer_rows(before, first).len(),
        0 <= j < answer_rows(between, second).len(),
    ensures
        answer_rows(before, first)[i] != answer_rows(between, second)[j],
{
    law_answered_rows_are_held(before, between, first, now, first_key, first_id, funds);
    law_held_rows_answer_no_other_request(
        between,
        after,
        answer_rows(before, first),
        answer_id(before, first, first_id),
        second,
        later,
        second_key,
        second_id,
        others,
        j,
    );
    assert(answer_rows(before, first).contains(answer_rows(before, first)[i]));
}

/// Whether no two transactions have the same id, and none has the given id.
pub open spec fn pending_ids_differ(pending: Seq<PendingRecord>, new_id: Seq<char>) -> bool {
    &&& forall|a: int, b: int|
        0 <= a < b < pending.len() ==> (#[trigger] pending[a]).id != (#[trigger] pending[b]).id
    &&& forall|a: int| 0 <= a < pending.len() ==> (#[trigger] pending[a]).id != new_id
}

proof fn lemma_pending_stands(pending: Seq<PendingRecord>, key: Seq<char>, account_id: i64) -> (i:
    int)
    requires
        pending_for(pending, key, account_id) is Some,
    ensures
        0 <= i < pending.len(),
        pending_for(pending, key, account_id) == Some(pending[i]),
        pending[i].idempotency_key == key,
        pending[i].account_id == account_id,
    decreases pending.len(),
{
    if pending_for(pending.drop_last(), key, account_id) is Some {
        lemma_pending_stands(pending.drop_last(), key, account_id)
    } else {
        pending.len() - 1
    }
}

/// Two requests under different keys, or of different accounts, that are answered one after the
/// other never get the same row, whether their funds are newly locked or were locked before. A
/// request without a key counts under the new key that it is given. The ids of the transactions
/// must differ, the new id must be new, and no row of an earlier lock may have become free.
pub proof fn law_different_keys_share_no_row(
    before: WalletState,
    between: WalletState,
    after: WalletState,
    first: LockRequest,
    second: LockRequest,
    now: UtcTime,
    later: UtcTime,
    first_key: Seq<char>,
    second_key: Seq<char>,
    first_id: Seq<char>,
    second_id: Seq<char>,
    funds: LockFundsResult,
    others: LockFundsResult,
    i: int,
    j: int,
)
    requires
        before.wf(),
        lock_outcome(before, between, first, now, first_key, first_id, Ok(funds)),
        lock_outcome(between, after, second, later, second_key, second_id, Ok(others)),
        second.idempotency_key is Some ==> first.key_or(first_key) != second.idempotency_key->0
            || first.account_id != second.account_id,
        pending_ids_differ(before.pending_transactions, first_id),
        already_locked(before, first) ==> none_unspent(before, answer_id(before, first, first_id)),
        0 <= i < answer_rows(before, first).len(),
        0 <= j < answer_rows(between, second).len(),
    ensures
        answer_rows(before, first)[i] != answer_rows(between, second)[j],
{
    if already_locked(between, second) {
        let key = second.idempotency_key->0;
        let b = lemma_pending_stands(between.pending_transactions, key, second.account_id);
        if already_locked(before, first) {
            let a = lemma_pending_stands(
                before.pending_transactions,
                first.idempotency_key->0,
                first.account_id,
            );
            assert(a != b);
        } else {
            assert(b < before.pending_transactions.len());
            assert(between.pending_transactions[b] == before.pending_transactions[b]);
        }
    }
    law_answers_share_no_row(
        before,
        between,
        after,
        first,
        second,
        now,
        later,
        first_key,
        second_key,
        first_id,
        second_id,
        funds,
        others,
        i,
        j,
    );
}

/// Two requests that are answered one after the other get different outputs, as told by their
/// hashes, under the conditions under which they get different rows, and provided no two rows store
/// outputs with the same hash.
pub proof fn law_requests_get_different_outputs(
    before: WalletState,
    between: WalletState,
    after: WalletState,
    first: LockRequest,
    second: LockRequest,
    now: UtcTime,
    later: UtcTime,
    first_key: Seq<char>,
    second_key: Seq<char>,
    first_id: Seq<char>,
    second_id: Seq<char>,
    funds: LockFundsResult,
    others: LockFundsResult,
    i: int,
    j: int,
)
    requires
        before.wf(),
        lock_outcome(before, between, first, now, first_key, first_id, Ok(funds)),
        lock_outcome(between, after, second, later, second_key, second_id, Ok(others)),
        already_locked(before, first) ==> none_unspent(before, answer_id(before, first, first_id)),
        already_locked(between, second) ==> answer_id(between, second, second_id) != answer_id(
            before,
            first,
            first_id,
        ),
        forall|a: int, b: int|
            0 <= a < b < before.outputs.len() && decodable(before.outputs[a]) && decodable(
                before.outputs[b],
            ) ==> stored_output(#[trigger] before.outputs[a]).output.output_hash != stored_output(
                #[trigger] before.outputs[b],
            ).output.output_hash,
        0 <= i < funds@.utxos.len(),
        0 <= j < others@.utxos.len(),
    ensures
        funds@.utxos[i].output_hash != others@.utxos[j].output_hash,
{
    law_answered_rows_are_held(before, between, first, now, first_key, first_id, funds);
    lemma_answer_length(between, after, second, later, second_key, second_id, others);
    law_answers_share_no_row(
        before,
        between,
        after,
        first,
        second,
        now,
        later,
        first_key,
        second_key,
        first_id,
        second_id,
        funds,
        others,
        i,
        j,
    );
    let a = lemma_answer_row(before, between, first, now, first_key, first_id, funds, i);
    let b = lemma_answer_row(between, after, second, later, second_key, second_id, others, j);
    assert(between.outputs[b].id == before.outputs[b].id && stored_output(between.outputs[b])
        == stored_output(before.outputs[b]) && decodable(between.outputs[b]) == decodable(
        before.outputs[b],
    ));
    assert(a != b);
}

proof fn lemma_answer_length(
    state: WalletState,
    after: WalletState,
    q: LockRequest,
    now: UtcTime,
    new_key: Seq<char>,
    request_id: Seq<char>,
    funds: LockFundsResult,
)
    requires
        lock_outcome(state, after, q, now, new_key, request_id, Ok(funds)),
    ensures
        answer_rows(state, q).len() == funds@.utxos.len(),
{
}

proof fn lemma_filter_of_unchanged(
    rows: Seq<OutputRecord>,
    f: spec_fn(OutputRecord) -> OutputRecord,
    p: spec_fn(OutputRecord) -> bool,
)
    requires
        forall|i: int|
            0 <= i < rows.len() ==> p(f(#[trigger] rows[i])) == p(rows[i]) && (p(rows[i]) ==> f(
                rows[i],
            ) == rows[i]),
    ensures
        rows.map_values(f).filter(p) == rows.filter(p),
    decreases rows.len(),
{
    reveal(Seq::filter);
    if rows.len() > 0 {
        let front = rows.drop_last();
        assert(forall|i: int| 0 <= i < front.len() ==> front[i] == rows[i]);
        lemma_filter_of_unchanged(front, f, p);
        assert(rows.map_values(f).drop_last() =~= front.map_values(f));
        assert(rows.map_values(f).last() == f(rows[rows.len() - 1]));
    } else {
        assert(rows.map_values(f) =~= rows);
    }
}

/// Locking funds for a request leaves the funds of earlier requests as they are: they are found
/// under the same key, with the same outputs, worth and fees.
pub proof fn law_later_locks_keep_earlier_funds(
    before: WalletState,
    key: Seq<char>,
    holder: i64,
    account_id: i64,
    selection: UtxoSelectionFacts,
    idempotency_key: Seq<char>,
    request_id: Seq<char>,
    expires_at: UtcTime,
)
    requires
        pending_for(before.pending_transactions, key, holder) is Some,
        pending_for(before.pending_transactions, key, holder)->0.id != request_id,
        forall|i: int|
            0 <= i < before.outputs.len() && locked_by(
                pending_for(before.pending_transactions, key, holder)->0.id,
            )(before.outputs[i]) ==> (#[trigger] before.outputs[i]).status != OutputStatus::Unspent,
    ensures
        ({
            let held = pending_for(before.pending_transactions, key, holder)->0;
            let after = locked_state(
                before,
                account_id,
                selection,
                idempotency_key,
                request_id,
                expires_at,
            );
            &&& pending_for(after.pending_transactions, key, holder) == Some(held)
            &&& after.outputs.filter(locked_by(held.id)) == before.outputs.filter(
                locked_by(held.id),
            )
            &&& locked_funds(after.outputs, held) == locked_funds(before.outputs, held)
        }),
{
    let held = pending_for(before.pending_transactions, key, holder)->0;
    let after = locked_state(
        before,
        account_id,
        selection,
        idempotency_key,
        request_id,
        expires_at,
    );
    lemma_pending_push(
        before.pending_transactions,
        after.pending_transactions.last(),
        key,
        holder,
    );
    let ids = output_ids(selection.utxos);
    lemma_filter_of_unchanged(
        before.outputs,
        |r: OutputRecord| with_locks(r, ids, request_id, expires_at),
        locked_by(held.id),
    );
}

/// Giving back the funds of a request leaves the outputs as they were before the funds were locked,
/// provided the chosen outputs carried no remains of an earlier lock and no output stood under the
/// id of the request.
pub proof fn law_unlocking_gives_the_funds_back(
    before: WalletState,
    account_id: i64,
    selection: UtxoSelectionFacts,
    idempotency_key: Seq<char>,
    request_id: Seq<char>,
    expires_at: UtcTime,
)
    requires
        forall|i: int|
            0 <= i < before.outputs.len() && output_ids(selection.utxos).contains(
                before.outputs[i].id,
            ) && before.outputs[i].status == OutputStatus::Unspent ==> (
            #[trigger] before.outputs[i]).locked_by_request_id is None
                && before.outputs[i].locked_at is None,
        forall|i: int|
            0 <= i < before.outputs.len() ==> !locked_by(request_id)(#[trigger] before.outputs[i]),
    ensures
        locked_state(
            before,
            account_id,
            selection,
            idempotency_key,
            request_id,
            expires_at,
        ).outputs.map_values(|r: OutputRecord| without_lock(r, request_id)) == before.outputs,
{
    let ids = output_ids(selection.utxos);
    let locked = locked_state(
        before,
        account_id,
        selection,
        idempotency_key,
        request_id,
        expires_at,
    ).outputs;
    let freed = locked.map_values(|r: OutputRecord| without_lock(r, request_id));
    assert forall|i: int| 0 <= i < before.outputs.len() implies freed[i] == before.outputs[i] by {
        assert(!locked_by(request_id)(before.outputs[i]));
        assert(locked[i] == with_locks(before.outputs[i], ids, request_id, expires_at));
    }
    assert(freed =~= before.outputs);
}

proof fn lemma_owned_value_stays(
    rows: Seq<OutputRecord>,
    f: spec_fn(OutputRecord) -> OutputRecord,
    account_id: i64,
)
    requires
        forall|r: OutputRecord|
            owned(account_id)(#[trigger] f(r)) == owned(account_id)(r) && f(r).value == r.value,
    ensures
        value_sum(rows.map_values(f).filter(owned(account_id))) == value_sum(
            rows.filter(owned(account_id)),
        ),
    decreases rows.len(),
{
    reveal(Seq::filter);
    let p = owned(account_id);
    if rows.len() > 0 {
        let front = rows.drop_last();
        lemma_owned_value_stays(front, f, account_id);
        assert(rows.map_values(f).drop_last() =~= front.map_values(f));
        let last = rows.last();
        assert(rows.map_values(f).last() == f(last));
        if p(last) {
            assert(front.filter(p).push(last).drop_last() =~= front.filter(p));
            assert(front.map_values(f).filter(p).push(f(last)).drop_last()
                =~= front.map_values(f).filter(p));
        }
    }
}

/// Locking funds changes nothing in what an account owns: the funds are set aside, not spent.
pub proof fn law_locking_keeps_what_is_owned(
    before: WalletState,
    account_id: i64,
    selection: UtxoSelectionFacts,
    idempotency_key: Seq<char>,
    request_id: Seq<char>,
    expires_at: UtcTime,
    owner: i64,
)
    ensures
        value_sum(
            locked_state(
                before,
                account_id,
                selection,
                idempotency_key,
                request_id,
                expires_at,
            ).outputs.filter(owned(owner)),
        ) == value_sum(before.outputs.filter(owned(owner))),
{
    let ids = output_ids(selection.utxos);
    lemma_owned_value_stays(
        before.outputs,
        |r: OutputRecord| with_locks(r, ids, request_id, expires_at),
        owner,
    );
}

} // verus!
