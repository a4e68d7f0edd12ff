//! What holds of the wallet's tables as a whole.
use crate::bindings::deterministic_tx_id;
use crate::db::balance_changes::original_change;
use crate::db::outputs::{
    active_from, awaits_confirmation, bucket_of, bucket_rows, confirmed, decodable,
    has_account_and_hash, has_hash, in_bucket, in_unspent_balance, mature, new_record,
    reversed_ledger, soft_deleted, soft_deletion, spendable, stored_output, totals_of,
    unconfirmed_facts, with_lock, without_lock, Bucket, DbWalletOutputFacts, UnconfirmedFacts,
};
use crate::db::query::{by_value_descending, insert_by_value, value_sum};
use crate::db::tables::{output_ids_rise, ChangeRecord, OutputRecord, WalletState};
use crate::models::{as_signed, as_unsigned, status_text, OutputStatus, TxId, UtcTime, HASH_LENGTH};
use crate::wallet_output::WalletOutputFacts;
use vstd::prelude::*;

verus! {

/// A number that is stored in a signed column is read back as it was, and the other way round.
pub proof fn law_columns_keep_numbers(n: u64, m: i64)
    ensures
        as_unsigned(as_signed(n)) == n,
        as_signed(as_unsigned(m)) == m,
{
}

/// Two statuses that are stored as the same text are the same.
pub proof fn law_status_texts_differ(a: OutputStatus, b: OutputStatus)
    requires
        status_text(a) == status_text(b),
    ensures
        a == b,
{
    reveal_strlit("UNSPENT");
    reveal_strlit("LOCKED");
    reveal_strlit("SPENT");
    assert("UNSPENT"@.len() == 7);
    assert("LOCKED"@.len() == 6);
    assert("SPENT"@.len() == 5);
}

proof fn lemma_filter_none<A>(s: Seq<A>, p: spec_fn(A) -> bool)
    requires
        forall|i: int| 0 <= i < s.len() ==> !p(#[trigger] s[i]),
    ensures
        s.filter(p) == Seq::<A>::empty(),
    decreases s.len(),
{
    reveal(Seq::filter);
    if s.len() > 0 {
        lemma_filter_none(s.drop_last(), p);
    } else {
        assert(s =~= Seq::empty());
    }
}

/// An output that has just been stored is what is found under its hash, provided no live output had
/// that hash before: under the id and the transaction id that it was stored with, and with the
/// wallet output that was handed in.
pub proof fn law_stored_output_is_found(
    rows: Seq<OutputRecord>,
    id: i64,
    created_at: UtcTime,
    account_id: i64,
    account_view_key: Seq<u8>,
    output_hash: Seq<u8>,
    output: WalletOutputFacts,
    block_height: u64,
    block_hash: Seq<u8>,
    mined_timestamp: u64,
    memo_parsed: Option<Seq<char>>,
    memo_hex: Option<Seq<char>>,
    payment_reference: Seq<u8>,
    is_burn: bool,
)
    requires
        output.wf(),
        forall|i: int| 0 <= i < rows.len() ==> !has_hash(output_hash)(#[trigger] rows[i]),
    ensures
        ({
            let record = new_record(
                id,
                created_at,
                account_id,
                account_view_key,
                output_hash,
                output,
                block_height,
                block_hash,
                mined_timestamp,
                memo_parsed,
                memo_hex,
                payment_reference,
                is_burn,
            );
            &&& rows.push(record).filter(has_hash(output_hash)) == seq![record]
            &&& rows.push(record).filter(has_account_and_hash(account_id, output_hash))
                == seq![record]
            &&& decodable(record)
            &&& stored_output(record) == (DbWalletOutputFacts {
                id,
                tx_id: TxId(deterministic_tx_id(account_view_key, output.output_hash)),
                output,
            })
        }),
{
    let record = new_record(
        id,
        created_at,
        account_id,
        account_view_key,
        output_hash,
        output,
        block_height,
        block_hash,
        mined_timestamp,
        memo_parsed,
        memo_hex,
        payment_reference,
        is_burn,
    );
    reveal(Seq::filter);
    assert(rows.push(record).drop_last() =~= rows);
    lemma_filter_none(rows, has_hash(output_hash));
    assert forall|i: int| 0 <= i < rows.len() implies !has_account_and_hash(
        account_id,
        output_hash,
    )(#[trigger] rows[i]) by {
        assert(!has_hash(output_hash)(rows[i]));
    }
    lemma_filter_none(rows, has_account_and_hash(account_id, output_hash));
    assert(Seq::<OutputRecord>::empty().push(record) =~= seq![record]);
}

/// The rows of the outputs that an account owns: not spent, not burned, not deleted.
pub open spec fn owned(account_id: i64) -> spec_fn(OutputRecord) -> bool {
    |r: OutputRecord|
        r.account_id == account_id && r.deleted_at is None && !r.is_burn && r.status
            != OutputStatus::Spent
}

/// Every output that an account owns counts towards exactly one part of the totals, and no other
/// output counts: the parts add up to what the owned outputs are worth.
pub proof fn law_totals_partition_what_is_owned(
    rows: Seq<OutputRecord>,
    account_id: i64,
    tip_height: u64,
)
    ensures
        value_sum(rows.filter(owned(account_id))) == value_sum(
            bucket_rows(rows, account_id, tip_height, Bucket::Locked),
        ) + value_sum(bucket_rows(rows, account_id, tip_height, Bucket::Unconfirmed)) + value_sum(
            bucket_rows(rows, account_id, tip_height, Bucket::Immature),
        ) + value_sum(bucket_rows(rows, account_id, tip_height, Bucket::Available)),
    decreases rows.len(),
{
    reveal(Seq::filter);
    if rows.len() > 0 {
        law_totals_partition_what_is_owned(rows.drop_last(), account_id, tip_height);
        let front = rows.drop_last();
        let last = rows.last();
        lemma_value_sum_push(front.filter(owned(account_id)), last);
        lemma_value_sum_push(bucket_rows(front, account_id, tip_height, Bucket::Locked), last);
        lemma_value_sum_push(bucket_rows(front, account_id, tip_height, Bucket::Unconfirmed), last);
        lemma_value_sum_push(bucket_rows(front, account_id, tip_height, Bucket::Immature), last);
        lemma_value_sum_push(bucket_rows(front, account_id, tip_height, Bucket::Available), last);
    }
}

proof fn lemma_value_sum_push(rows: Seq<OutputRecord>, r: OutputRecord)
    ensures
        value_sum(rows.push(r)) == value_sum(rows) + r.value,
{
    assert(rows.push(r).drop_last() =~= rows);
}

proof fn lemma_value_sum_nonnegative(rows: Seq<OutputRecord>)
    requires
        forall|i: int| 0 <= i < rows.len() ==> (#[trigger] rows[i]).value >= 0,
    ensures
        value_sum(rows) >= 0,
    decreases rows.len(),
{
    if rows.len() > 0 {
        lemma_value_sum_nonnegative(rows.drop_last());
    }
}

/// The available and the unavailable part of an account's totals add up to what its outputs are
/// worth, as long as no stored value is negative and the whole fits in a column.
pub proof fn law_available_and_unavailable_are_all(
    rows: Seq<OutputRecord>,
    account_id: i64,
    tip_height: u64,
)
    requires
        forall|i: int|
            0 <= i < rows.len() && owned(account_id)(rows[i]) ==> (#[trigger] rows[i]).value >= 0,
        value_sum(rows.filter(owned(account_id))) <= i64::MAX,
    ensures
        ({
            let totals = totals_of(rows, account_id, tip_height);
            totals.available.0 + totals.unavailable.0 == value_sum(rows.filter(owned(account_id)))
        }),
{
    law_totals_partition_what_is_owned(rows, account_id, tip_height);
    assert forall|bucket: Bucket|
        value_sum(#[trigger] bucket_rows(rows, account_id, tip_height, bucket)) >= 0 by {
        let counted = bucket_rows(rows, account_id, tip_height, bucket);
        assert forall|i: int| 0 <= i < counted.len() implies (#[trigger] counted[i]).value >= 0 by {
            rows.lemma_filter_pred(in_bucket(account_id, tip_height, bucket), i);
            assert(counted.contains(counted[i]));
            rows.lemma_filter_contains_rev(in_bucket(account_id, tip_height, bucket), counted[i]);
        }
        lemma_value_sum_nonnegative(counted);
    }
    assert(value_sum(bucket_rows(rows, account_id, tip_height, Bucket::Locked)) >= 0);
    assert(value_sum(bucket_rows(rows, account_id, tip_height, Bucket::Unconfirmed)) >= 0);
    assert(value_sum(bucket_rows(rows, account_id, tip_height, Bucket::Immature)) >= 0);
    assert(value_sum(bucket_rows(rows, account_id, tip_height, Bucket::Available)) >= 0);
}

/// What an account can spend in a transaction is part of its unspent balance, and of what it owns.
pub proof fn law_spendable_is_in_the_balance(
    r: OutputRecord,
    account_id: i64,
    min_height: u64,
    tip_height: u64,
)
    requires
        spendable(account_id, min_height, tip_height)(r),
    ensures
        in_unspent_balance(account_id, tip_height)(r),
        owned(account_id)(r),
{
}

/// Outputs that count as locked or immature are never in the unspent balance; available ones always
/// are.
pub proof fn law_balance_and_totals_agree(r: OutputRecord, account_id: i64, tip_height: u64)
    ensures
        bucket_of(r, account_id, tip_height) == Some(Bucket::Available) ==> in_unspent_balance(
            account_id,
            tip_height,
        )(r),
        bucket_of(r, account_id, tip_height) == Some(Bucket::Locked) || bucket_of(
            r,
            account_id,
            tip_height,
        ) == Some(Bucket::Immature) ==> !in_unspent_balance(account_id, tip_height)(r),
{
}

/// An output whose maturity is too large for its column is never mature, however high the chain
/// grows.
pub proof fn law_wrapped_maturity_is_never_mature(r: OutputRecord, maturity: u64, tip_height: u64)
    requires
        maturity > i64::MAX,
        r.maturity == as_signed(maturity),
    ensures
        !mature(r, tip_height),
{
}

/// An output stays mature as the chain grows, and one that is not too mature for its column is
/// mature exactly from the height of its maturity on.
pub proof fn law_maturity_is_reached_once(
    r: OutputRecord,
    account_id: i64,
    tip_height: u64,
    later: u64,
)
    requires
        tip_height <= later,
    ensures
        mature(r, tip_height) ==> mature(r, later),
        in_unspent_balance(account_id, tip_height)(r) ==> in_unspent_balance(account_id, later)(r),
        r.maturity >= 0 ==> (mature(r, tip_height) <==> r.maturity <= tip_height),
{
}

proof fn lemma_insert_by_value_keeps(rows: Seq<OutputRecord>, r: OutputRecord)
    ensures
        insert_by_value(rows, r).to_multiset() == rows.to_multiset().insert(r),
        insert_by_value(rows, r).len() == rows.len() + 1,
    decreases rows.len(),
{
    broadcast use vstd::seq_lib::group_to_multiset_ensures;

    if !(rows.len() == 0 || rows.last().value >= r.value) {
        lemma_insert_by_value_keeps(rows.drop_last(), r);
        assert(rows =~= rows.drop_last().push(rows.last()));
        assert(rows.drop_last().to_multiset().insert(r).insert(rows.last())
            =~= rows.drop_last().to_multiset().insert(rows.last()).insert(r));
    }
}

/// Putting rows in order of value keeps every row, as often as it was there.
pub proof fn law_ordering_keeps_the_rows(rows: Seq<OutputRecord>)
    ensures
        by_value_descending(rows).to_multiset() == rows.to_multiset(),
        by_value_descending(rows).len() == rows.len(),
    decreases rows.len(),
{
    broadcast use vstd::seq_lib::group_to_multiset_ensures;

    if rows.len() > 0 {
        law_ordering_keeps_the_rows(rows.drop_last());
        lemma_insert_by_value_keeps(by_value_descending(rows.drop_last()), rows.last());
        assert(rows =~= rows.drop_last().push(rows.last()));
    }
}

/// Whether rows fall in value, and rows of one value rise in their ids.
pub open spec fn falls_by_value(rows: Seq<OutputRecord>) -> bool {
    forall|i: int, j: int|
        0 <= i < j < rows.len() ==> {
            ||| (#[trigger] rows[i]).value > (#[trigger] rows[j]).value
            ||| rows[i].value == rows[j].value && rows[i].id < rows[j].id
        }
}

proof fn lemma_insert_by_value_falls(rows: Seq<OutputRecord>, r: OutputRecord)
    requires
        falls_by_value(rows),
        forall|i: int| 0 <= i < rows.len() ==> (#[trigger] rows[i]).id < r.id,
    ensures
        falls_by_value(insert_by_value(rows, r)),
        forall|i: int|
            0 <= i <= rows.len() ==> (#[trigger] insert_by_value(rows, r)[i]) == r || rows.contains(
                insert_by_value(rows, r)[i],
            ),
        insert_by_value(rows, r).len() == rows.len() + 1,
    decreases rows.len(),
{
    let inserted = insert_by_value(rows, r);
    if rows.len() == 0 || rows.last().value >= r.value {
        assert forall|i: int| 0 <= i <= rows.len() implies (#[trigger] inserted[i]) == r
            || rows.contains(inserted[i]) by {
            if i < rows.len() {
                assert(rows[i] == inserted[i]);
            }
        }
        assert forall|i: int, j: int| 0 <= i < j < inserted.len() implies {
            ||| (#[trigger] inserted[i]).value > (#[trigger] inserted[j]).value
            ||| inserted[i].value == inserted[j].value && inserted[i].id < inserted[j].id
        } by {
            assert(inserted[i] == rows[i]);
            if j == rows.len() {
                assert(rows[i].value >= rows.last().value);
            } else {
                assert(inserted[j] == rows[j]);
            }
        }
    } else {
        let front = rows.drop_last();
        assert forall|i: int, j: int| 0 <= i < j < front.len() implies {
            ||| (#[trigger] front[i]).value > (#[trigger] front[j]).value
            ||| front[i].value == front[j].value && front[i].id < front[j].id
        } by {
            assert(front[i] == rows[i] && front[j] == rows[j]);
        }
        lemma_insert_by_value_falls(front, r);
        let rest = insert_by_value(front, r);
        assert(inserted == rest.push(rows.last()));
        assert forall|i: int| 0 <= i <= rows.len() implies (#[trigger] inserted[i]) == r
            || rows.contains(inserted[i]) by {
            if i < rows.len() {
                assert(inserted[i] == rest[i]);
                if rest[i] != r {
                    let k = choose|k: int| 0 <= k < front.len() && front[k] == rest[i];
                    assert(rows[k] == inserted[i]);
                }
            } else {
                assert(rows[rows.len() - 1] == inserted[i]);
            }
        }
        assert forall|i: int, j: int| 0 <= i < j < inserted.len() implies {
            ||| (#[trigger] inserted[i]).value > (#[trigger] inserted[j]).value
            ||| inserted[i].value == inserted[j].value && inserted[i].id < inserted[j].id
        } by {
            assert(inserted[i] == rest[i]);
            if j == rows.len() {
                if rest[i] != r {
                    let k = choose|k: int| 0 <= k < front.len() && front[k] == rest[i];
                    assert(rows[k] == rest[i]);
                    assert(rows[rows.len() - 1] == inserted[j]);
                }
            } else {
                assert(inserted[j] == rest[j]);
            }
        }
    }
}

/// Rows whose ids rise are put in falling order of value, and rows of one value in rising order of
/// their ids.
pub proof fn law_ordering_falls_by_value(rows: Seq<OutputRecord>)
    requires
        output_ids_rise(rows),
    ensures
        falls_by_value(by_value_descending(rows)),
    decreases rows.len(),
{
    broadcast use vstd::seq_lib::group_to_multiset_ensures;

    if rows.len() > 0 {
        let front = rows.drop_last();
        assert forall|i: int, j: int| 0 <= i < j < front.len() implies (#[trigger] front[i]).id < (
        #[trigger] front[j]).id by {
            assert(front[i] == rows[i] && front[j] == rows[j]);
        }
        law_ordering_falls_by_value(front);
        law_ordering_keeps_the_rows(front);
        let sorted = by_value_descending(front);
        assert forall|i: int| 0 <= i < sorted.len() implies (#[trigger] sorted[i]).id
            < rows.last().id by {
            assert(sorted.contains(sorted[i]));
            assert(sorted.to_multiset().count(sorted[i]) > 0);
            assert(front.contains(sorted[i]));
            let k = choose|k: int| 0 <= k < front.len() && front[k] == sorted[i];
            assert(rows[k] == sorted[i]);
        }
        lemma_insert_by_value_falls(sorted, rows.last());
    }
}

/// Confirming an output takes its rows, and no others, off the list of those that wait for their
/// confirmation.
pub proof fn law_confirmed_output_waits_no_more(
    rows: Seq<OutputRecord>,
    hash: Seq<u8>,
    height: u64,
    block: Seq<u8>,
    account_id: i64,
    current_height: u64,
    confirmation_blocks: u64,
)
    ensures
        ({
            let p = awaits_confirmation(account_id, current_height, confirmation_blocks);
            rows.map_values(|r: OutputRecord| confirmed(r, hash, height, block)).filter(p)
                == rows.filter(p).filter(|r: OutputRecord| r.output_hash != hash)
        }),
    decreases rows.len(),
{
    reveal(Seq::filter);
    let p = awaits_confirmation(account_id, current_height, confirmation_blocks);
    let f = |r: OutputRecord| confirmed(r, hash, height, block);
    let other = |r: OutputRecord| r.output_hash != hash;
    if rows.len() > 0 {
        let front = rows.drop_last();
        let last = rows.last();
        law_confirmed_output_waits_no_more(
            front,
            hash,
            height,
            block,
            account_id,
            current_height,
            confirmation_blocks,
        );
        assert(rows.map_values(f).drop_last() =~= front.map_values(f));
        assert(rows.map_values(f).last() == f(last));
        if p(last) {
            assert(front.filter(p).push(last).drop_last() =~= front.filter(p));
        }
    } else {
        assert(rows.map_values(f) =~= rows);
    }
}

proof fn lemma_listed_without_hash(rows: Seq<OutputRecord>, hash: Seq<u8>)
    requires
        hash.len() == HASH_LENGTH,
        forall|i: int|
            0 <= i < rows.len() && (#[trigger] rows[i]).output_hash.take(HASH_LENGTH as int) == hash
                ==> rows[i].output_hash == hash,
    ensures
        rows.filter(|r: OutputRecord| r.output_hash != hash).map_values(
            |r: OutputRecord| unconfirmed_facts(r),
        ) == rows.map_values(|r: OutputRecord| unconfirmed_facts(r)).filter(
            |u: UnconfirmedFacts| u.output_hash != hash,
        ),
    decreases rows.len(),
{
    reveal(Seq::filter);
    let f = |r: OutputRecord| unconfirmed_facts(r);
    let other = |r: OutputRecord| r.output_hash != hash;
    if rows.len() > 0 {
        let front = rows.drop_last();
        let last = rows.last();
        assert(forall|i: int| 0 <= i < front.len() ==> front[i] == rows[i]);
        lemma_listed_without_hash(front, hash);
        assert(rows[rows.len() - 1] == last);
        assert(hash.take(HASH_LENGTH as int) =~= hash);
        assert(rows.map_values(f).drop_last() =~= front.map_values(f));
        assert(rows.map_values(f).last() == f(last));
        if other(last) {
            assert(front.filter(other).push(last).map_values(f) =~= front.filter(other).map_values(
                f,
            ).push(f(last)));
        }
    } else {
        assert(rows.filter(other).map_values(f) =~= rows.map_values(f));
    }
}

/// Where the outputs that wait for their confirmation are listed, confirming one takes the entries
/// with its hash off the list and leaves all others, in their order. The list shows the leading
/// bytes of a hash column, so no listed row may hold more bytes that only begin with the hash.
pub proof fn law_confirming_leaves_the_other_entries(
    rows: Seq<OutputRecord>,
    hash: Seq<u8>,
    height: u64,
    block: Seq<u8>,
    account_id: i64,
    current_height: u64,
    confirmation_blocks: u64,
)
    requires
        hash.len() == HASH_LENGTH,
        ({
            let waiting = rows.filter(
                awaits_confirmation(account_id, current_height, confirmation_blocks),
            );
            forall|i: int|
                0 <= i < waiting.len() && (#[trigger] waiting[i]).output_hash.take(
                    HASH_LENGTH as int,
                ) == hash ==> waiting[i].output_hash == hash
        }),
    ensures
        ({
            let p = awaits_confirmation(account_id, current_height, confirmation_blocks);
            let listed = rows.filter(p).map_values(|r: OutputRecord| unconfirmed_facts(r));
            rows.map_values(|r: OutputRecord| confirmed(r, hash, height, block)).filter(
                p,
            ).map_values(|r: OutputRecord| unconfirmed_facts(r)) == listed.filter(
                |u: UnconfirmedFacts| u.output_hash != hash,
            )
        }),
{
    let p = awaits_confirmation(account_id, current_height, confirmation_blocks);
    law_confirmed_output_waits_no_more(
        rows,
        hash,
        height,
        block,
        account_id,
        current_height,
        confirmation_blocks,
    );
    lemma_listed_without_hash(rows.filter(p), hash);
}

/// Once an account's outputs have been removed from a height on, none of them is left at that height
/// or above it, the outputs of other accounts and below the height are as they were, and removing
/// them again changes nothing.
pub proof fn law_soft_deletion_is_complete(
    before: WalletState,
    after: WalletState,
    again: WalletState,
    account_id: i64,
    height: u64,
    now: UtcTime,
    later: UtcTime,
    higher: u64,
)
    requires
        soft_deletion(before, after, account_id, height, now, Ok(())),
        soft_deletion(after, again, account_id, higher, later, Ok(())),
        as_signed(higher) >= as_signed(height),
    ensures
        after.outputs.filter(active_from(account_id, higher)).len() == 0,
        forall|i: int|
            0 <= i < before.outputs.len() && !active_from(account_id, height)(before.outputs[i])
                ==> #[trigger] after.outputs[i] == before.outputs[i],
        again == after,
{
    let p = active_from(account_id, higher);
    assert forall|i: int| 0 <= i < after.outputs.len() implies !p(#[trigger] after.outputs[i]) by {
        assert(after.outputs[i] == soft_deleted(before.outputs[i], account_id, height, now));
    }
    lemma_filter_none(after.outputs, p);
    assert(again.outputs =~= after.outputs) by {
        assert forall|i: int| 0 <= i < after.outputs.len() implies again.outputs[i]
            == after.outputs[i] by {
            assert(again.outputs[i] == soft_deleted(after.outputs[i], account_id, higher, later));
            assert(!p(after.outputs[i]));
        }
    }
    assert(again.balance_changes =~= after.balance_changes);
}

/// The sum of what some ledger entries debit.
pub open spec fn debit_sum(changes: Seq<(i64, ChangeRecord)>) -> int
    decreases changes.len(),
{
    if changes.len() == 0 {
        0
    } else {
        debit_sum(changes.drop_last()) + changes.last().1.balance_debit.0
    }
}

proof fn lemma_reversals_debit(
    changes: Seq<(i64, ChangeRecord)>,
    removed: Seq<OutputRecord>,
    account_id: i64,
    height: u64,
    now: UtcTime,
    k: int,
)
    requires
        0 <= k <= removed.len(),
        forall|i: int| 0 <= i < removed.len() ==> (#[trigger] removed[i]).value >= 0,
    ensures
        debit_sum(
            reversed_ledger(changes, removed, account_id, height, now).subrange(
                changes.len() as int,
                changes.len() + k,
            ),
        ) == value_sum(removed.take(k)),
    decreases k,
{
    let ledger = reversed_ledger(changes, removed, account_id, height, now);
    let n = changes.len() as int;
    if k > 0 {
        lemma_reversals_debit(changes, removed, account_id, height, now, k - 1);
        assert(ledger.subrange(n, n + k).drop_last() =~= ledger.subrange(n, n + k - 1));
        assert(removed.take(k).drop_last() =~= removed.take(k - 1));
        assert(removed.take(k).last() == removed[k - 1]);
        assert(removed[k - 1].value >= 0);
    }
}

/// Removing outputs adds as many ledger entries as outputs are removed, and these debit what the
/// removed outputs are worth. The entries that stood in the ledger keep their ids and amounts.
pub proof fn law_soft_deletion_takes_credits_back(
    before: WalletState,
    after: WalletState,
    account_id: i64,
    height: u64,
    now: UtcTime,
)
    requires
        soft_deletion(before, after, account_id, height, now, Ok(())),
        forall|i: int|
            0 <= i < before.outputs.len() && active_from(account_id, height)(before.outputs[i])
                ==> (#[trigger] before.outputs[i]).value >= 0,
    ensures
        ({
            let removed = before.outputs.filter(active_from(account_id, height));
            let n = before.balance_changes.len();
            &&& after.balance_changes.len() == n + removed.len()
            &&& debit_sum(after.balance_changes.skip(n as int)) == value_sum(removed)
            &&& forall|i: int|
                0 <= i < n ==> {
                    let old_entry = before.balance_changes[i];
                    let new_entry = #[trigger] after.balance_changes[i];
                    &&& new_entry.0 == old_entry.0
                    &&& new_entry.1 == (ChangeRecord {
                        is_reversed: new_entry.1.is_reversed,
                        ..old_entry.1
                    })
                }
        }),
{
    let p = active_from(account_id, height);
    let removed = before.outputs.filter(p);
    let n = before.balance_changes.len() as int;
    assert forall|i: int| 0 <= i < removed.len() implies (#[trigger] removed[i]).value >= 0 by {
        before.outputs.lemma_filter_pred(p, i);
        assert(removed.contains(removed[i]));
        before.outputs.lemma_filter_contains_rev(p, removed[i]);
    }
    lemma_reversals_debit(
        before.balance_changes,
        removed,
        account_id,
        height,
        now,
        removed.len() as int,
    );
    assert(after.balance_changes.skip(n) =~= after.balance_changes.subrange(n, n + removed.len()));
    assert(removed.take(removed.len() as int) =~= removed);
}

/// Every removed output is taken back by a ledger entry of its own, which names the entry that
/// recorded the output; that entry is marked as reversed.
pub proof fn law_soft_deletion_reverses_each_output(
    before: WalletState,
    after: WalletState,
    account_id: i64,
    height: u64,
    now: UtcTime,
    k: int,
)
    requires
        soft_deletion(before, after, account_id, height, now, Ok(())),
        0 <= k < before.outputs.filter(active_from(account_id, height)).len(),
    ensures
        ({
            let r = before.outputs.filter(active_from(account_id, height))[k];
            let original = original_change(before.balance_changes, r.id);
            let reversal = after.balance_changes[before.balance_changes.len() + k].1;
            &&& reversal.is_reversal
            &&& reversal.caused_by_output_id == Some(r.id)
            &&& reversal.reversal_of_balance_change_id == original
            &&& reversal.balance_credit.0 == 0
            &&& reversal.balance_debit.0 == as_unsigned(r.value)
            &&& forall|i: int|
                0 <= i < before.balance_changes.len() && original == Some(
                    before.balance_changes[i].0,
                ) ==> (#[trigger] after.balance_changes[i]).1.is_reversed
        }),
{
    let removed = before.outputs.filter(active_from(account_id, height));
    let r = removed[k];
    assert forall|i: int|
        0 <= i < before.balance_changes.len() && original_change(before.balance_changes, r.id)
            == Some(before.balance_changes[i].0) implies (
    #[trigger] after.balance_changes[i]).1.is_reversed by {
        assert(original_change(before.balance_changes, removed[k].id) == Some(
            before.balance_changes[i].0,
        ));
    }
}

/// An output that has been removed is found under its hash no more, can no longer be spent, counts
/// towards no balance and no total, and waits for no confirmation.
pub proof fn law_a_removed_output_is_gone(
    r: OutputRecord,
    account_id: i64,
    height: u64,
    now: UtcTime,
    hash: Seq<u8>,
    min_height: u64,
    tip_height: u64,
    confirmation_blocks: u64,
)
    requires
        active_from(account_id, height)(r),
    ensures
        ({
            let gone = soft_deleted(r, account_id, height, now);
            &&& !has_hash(hash)(gone)
            &&& !has_account_and_hash(account_id, hash)(gone)
            &&& !spendable(account_id, min_height, tip_height)(gone)
            &&& !in_unspent_balance(account_id, tip_height)(gone)
            &&& bucket_of(gone, account_id, tip_height) is None
            &&& !awaits_confirmation(account_id, tip_height, confirmation_blocks)(gone)
        }),
{
}

/// Giving a request's outputs back undoes a lock that the request has put on an output, provided
/// the output carried no remains of an earlier lock.
pub proof fn law_unlocking_undoes_locking(
    r: OutputRecord,
    request_id: Seq<char>,
    locked_at: UtcTime,
)
    requires
        r.locked_by_request_id is None,
        r.locked_at is None,
    ensures
        without_lock(with_lock(r, r.id, request_id, locked_at), request_id) == r,
{
}

/// A locked output cannot be spent by another transaction, and locking it a second time changes
/// nothing: the first request keeps it.
pub proof fn law_a_lock_holds(
    r: OutputRecord,
    first: Seq<char>,
    second: Seq<char>,
    at: UtcTime,
    later: UtcTime,
    account_id: i64,
    min_height: u64,
    tip_height: u64,
)
    ensures
        ({
            let locked = with_lock(r, r.id, first, at);
            &&& !spendable(account_id, min_height, tip_height)(locked)
            &&& !in_unspent_balance(account_id, tip_height)(locked)
            &&& with_lock(locked, r.id, second, later) == locked
        }),
{
}

} // verus!
