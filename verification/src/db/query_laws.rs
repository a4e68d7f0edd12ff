//! What the answers of the queries say of the rows of the table, in terms of the rows' own fields.
use crate::bindings::decoded_wallet_output;
use crate::db::error::{WalletDbError, WalletDbResult};
use crate::db::laws::{law_ordering_falls_by_value, law_ordering_keeps_the_rows};
use crate::db::outputs::{
    active_from, active_listed, awaits_confirmation, balance_found, bucket_rows, decodable,
    found_by_account_and_hash, found_by_hash, handed_out, has_account_and_hash, has_hash, has_id,
    held_listed, in_bucket, in_unspent_balance, locked_by, output_facts, reorg_facts, spendable,
    spendable_listed, stored_output, totals_found, unconfirmed_facts, waiting_listed, Bucket,
    DbOutput, DbWalletOutput, OutputTotals, ReorgOutputInfo, UnconfirmedOutputRow,
};
use crate::db::query::{by_value_descending, sum_fits, value_sum};
use crate::db::tables::{output_ids_rise, OutputRecord};
use crate::models::{bytes, text, OutputStatus, TxId};
use crate::wallet_output::WalletOutput;
use vstd::prelude::*;

verus! {

/// A row of a selection is a row of the table that passes.
pub(crate) proof fn lemma_row_of_selection(
    rows: Seq<OutputRecord>,
    p: spec_fn(OutputRecord) -> bool,
    j: int,
) -> (k: int)
    requires
        0 <= j < rows.filter(p).len(),
    ensures
        0 <= k < rows.len(),
        rows[k] == rows.filter(p)[j],
        p(rows[k]),
{
    let hits = rows.filter(p);
    rows.lemma_filter_pred(p, j);
    assert(hits.contains(hits[j]));
    rows.lemma_filter_contains_rev(p, hits[j]);
    choose|k: int| 0 <= k < rows.len() && rows[k] == hits[j]
}

/// A row of the table that passes is a row of the selection.
pub(crate) proof fn lemma_row_is_selected(
    rows: Seq<OutputRecord>,
    p: spec_fn(OutputRecord) -> bool,
    k: int,
) -> (j: int)
    requires
        0 <= k < rows.len(),
        p(rows[k]),
    ensures
        0 <= j < rows.filter(p).len(),
        rows.filter(p)[j] == rows[k],
{
    let hits = rows.filter(p);
    rows.lemma_filter_contains(p, k);
    choose|j: int| 0 <= j < hits.len() && hits[j] == rows[k]
}

/// The first row of a selection is the first row of the table that passes.
proof fn lemma_first_of_selection(rows: Seq<OutputRecord>, p: spec_fn(OutputRecord) -> bool) -> (k:
    int)
    requires
        rows.filter(p).len() > 0,
    ensures
        0 <= k < rows.len(),
        rows[k] == rows.filter(p)[0],
        p(rows[k]),
        forall|i: int| 0 <= i < k ==> !p(#[trigger] rows[i]),
    decreases rows.len(),
{
    reveal(Seq::filter);
    let front = rows.drop_last();
    if front.filter(p).len() > 0 {
        let k = lemma_first_of_selection(front, p);
        assert(forall|i: int| 0 <= i < front.len() ==> front[i] == rows[i]);
        k
    } else {
        assert forall|i: int| 0 <= i < rows.len() - 1 implies !p(#[trigger] rows[i]) by {
            if p(rows[i]) {
                assert(front[i] == rows[i]);
                let j = lemma_row_is_selected(front, p, i);
            }
        }
        rows.len() - 1
    }
}

pub(crate) proof fn lemma_selection_rises(
    rows: Seq<OutputRecord>,
    p: spec_fn(OutputRecord) -> bool,
)
    requires
        output_ids_rise(rows),
    ensures
        output_ids_rise(rows.filter(p)),
    decreases rows.len(),
{
    reveal(Seq::filter);
    if rows.len() > 0 {
        let front = rows.drop_last();
        assert(forall|i: int| 0 <= i < front.len() ==> front[i] == rows[i]);
        lemma_selection_rises(front, p);
        let hits = front.filter(p);
        assert forall|j: int| 0 <= j < hits.len() implies (#[trigger] hits[j]).id
            < rows.last().id by {
            let k = lemma_row_of_selection(front, p, j);
            assert(rows[k] == hits[j]);
        }
    }
}

/// What a selection gains when a row is added to the table.
pub(crate) proof fn lemma_selection_push(
    rows: Seq<OutputRecord>,
    r: OutputRecord,
    p: spec_fn(OutputRecord) -> bool,
)
    ensures
        rows.push(r).filter(p) == if p(r) {
            rows.filter(p).push(r)
        } else {
            rows.filter(p)
        },
        Seq::<OutputRecord>::empty().filter(p) == Seq::<OutputRecord>::empty(),
{
    reveal(Seq::filter);
    assert(rows.push(r).drop_last() =~= rows);
}

proof fn lemma_selection_of_selection(
    rows: Seq<OutputRecord>,
    p: spec_fn(OutputRecord) -> bool,
    q: spec_fn(OutputRecord) -> bool,
)
    requires
        forall|r: OutputRecord| #[trigger] p(r) ==> q(r),
    ensures
        rows.filter(q).filter(p) == rows.filter(p),
    decreases rows.len(),
{
    reveal(Seq::filter);
    if rows.len() > 0 {
        let front = rows.drop_last();
        let last = rows.last();
        lemma_selection_of_selection(front, p, q);
        if q(last) {
            assert(front.filter(q).push(last).drop_last() =~= front.filter(q));
        }
    }
}

/// The list of what an account can spend holds an output if and only if the account owns its row,
/// the row is unspent, neither deleted nor burned, was mined no higher than `min_height`, and has a
/// maturity that is neither negative nor above `tip_height`.
pub proof fn law_spendable_list_is_complete(
    rows: Seq<OutputRecord>,
    account_id: i64,
    min_height: u64,
    tip_height: u64,
    list: Vec<DbWalletOutput>,
    k: int,
)
    requires
        output_ids_rise(rows),
        spendable_listed(rows, account_id, min_height, tip_height, Ok(list)),
        0 <= k < rows.len(),
    ensures
        (exists|j: int| 0 <= j < list@.len() && (#[trigger] list@[j]).id == rows[k].id) <==> {
            &&& rows[k].account_id == account_id
            &&& rows[k].status == OutputStatus::Unspent
            &&& rows[k].deleted_at is None
            &&& !rows[k].is_burn
            &&& rows[k].mined_in_block_height <= (if min_height <= i64::MAX {
                min_height as int
            } else {
                min_height - 0x1_0000_0000_0000_0000
            })
            &&& 0 <= rows[k].maturity
            &&& rows[k].maturity <= tip_height
        },
{
    let p = spendable(account_id, min_height, tip_height);
    let hits = rows.filter(p);
    let sorted = by_value_descending(hits);
    broadcast use vstd::seq_lib::group_to_multiset_ensures;

    law_ordering_keeps_the_rows(hits);
    assert(list@.len() == output_facts(list@).len());
    assert(output_facts(list@).len() == sorted.len());
    assert forall|j: int| 0 <= j < list@.len() implies (#[trigger] list@[j]).id == sorted[j].id by {
        assert(output_facts(list@)[j] == stored_output(sorted[j]));
    }
    if p(rows[k]) {
        let h = lemma_row_is_selected(rows, p, k);
        assert(hits.to_multiset().count(rows[k]) > 0);
        assert(sorted.contains(rows[k]));
        let j = choose|j: int| 0 <= j < sorted.len() && sorted[j] == rows[k];
        assert(list@[j].id == rows[k].id);
    }
    if exists|j: int| 0 <= j < list@.len() && (#[trigger] list@[j]).id == rows[k].id {
        let j = choose|j: int| 0 <= j < list@.len() && (#[trigger] list@[j]).id == rows[k].id;
        assert(sorted.contains(sorted[j]));
        assert(sorted.to_multiset().count(sorted[j]) > 0);
        assert(hits.contains(sorted[j]));
        let h = choose|h: int| 0 <= h < hits.len() && hits[h] == sorted[j];
        let m = lemma_row_of_selection(rows, p, h);
        assert(rows[m].id == rows[k].id);
        assert(m == k);
    }
}

/// Each output in the list of what an account can spend is what a row stores: the row's id, its
/// transaction id as it was before it was stored, the text of the wallet output and what that text
/// decodes to. More valuable rows come first, rows of one value in the order of the table.
pub proof fn law_spendable_list_shows_the_rows(
    rows: Seq<OutputRecord>,
    account_id: i64,
    min_height: u64,
    tip_height: u64,
    list: Vec<DbWalletOutput>,
    i: int,
    j: int,
)
    requires
        output_ids_rise(rows),
        spendable_listed(rows, account_id, min_height, tip_height, Ok(list)),
        0 <= i < j < list@.len() || 0 <= i == j < list@.len(),
    ensures
        exists|a: int, b: int|
            {
                &&& 0 <= a < rows.len()
                &&& 0 <= b < rows.len()
                &&& (#[trigger] rows[a]).id == list@[i].id
                &&& (#[trigger] rows[b]).id == list@[j].id
                &&& rows[a].tx_id == (if list@[i].tx_id.0 <= i64::MAX {
                    list@[i].tx_id.0 as int
                } else {
                    list@[i].tx_id.0 - 0x1_0000_0000_0000_0000
                })
                &&& rows[a].wallet_output_json == Some(list@[i].output.json@)
                &&& decoded_wallet_output(list@[i].output.json@) == Some(
                    (
                        list@[i].output.value.0,
                        list@[i].output.maturity,
                        list@[i].output.output_hash@,
                    ),
                )
                &&& i < j ==> rows[a].value > rows[b].value || rows[a].value == rows[b].value && a
                    < b
            },
{
    let p = spendable(account_id, min_height, tip_height);
    let hits = rows.filter(p);
    let sorted = by_value_descending(hits);
    lemma_selection_rises(rows, p);
    law_ordering_falls_by_value(hits);
    assert(list@.len() == output_facts(list@).len());
    assert(output_facts(list@)[i] == stored_output(sorted[i]));
    assert(output_facts(list@)[j] == stored_output(sorted[j]));
    let a = lemma_row_of_sorted(rows, p, i);
    let b = lemma_row_of_sorted(rows, p, j);
    assert(decodable(sorted[i]));
    assert(list@[i]@ == stored_output(rows[a]));
    assert(rows[a].id == list@[i].id && rows[b].id == list@[j].id);
    if i < j && rows[a].value == rows[b].value {
        assert(rows[a].id < rows[b].id);
        if b < a {
            assert(rows[b].id < rows[a].id);
        }
    }
}

pub(crate) proof fn lemma_row_of_sorted(
    rows: Seq<OutputRecord>,
    p: spec_fn(OutputRecord) -> bool,
    j: int,
) -> (k: int)
    requires
        0 <= j < by_value_descending(rows.filter(p)).len(),
    ensures
        0 <= k < rows.len(),
        rows[k] == by_value_descending(rows.filter(p))[j],
        p(rows[k]),
{
    broadcast use vstd::seq_lib::group_to_multiset_ensures;

    let hits = rows.filter(p);
    let sorted = by_value_descending(hits);
    law_ordering_keeps_the_rows(hits);
    assert(sorted.contains(sorted[j]));
    assert(sorted.to_multiset().count(sorted[j]) > 0);
    assert(hits.contains(sorted[j]));
    let h = choose|h: int| 0 <= h < hits.len() && hits[h] == sorted[j];
    lemma_row_of_selection(rows, p, h)
}

/// The list of what an account can spend is refused exactly where one of the rows that belong on it
/// holds no text, or a text that cannot be decoded; a missing text is what is reported first.
pub proof fn law_spendable_list_is_refused_for_unreadable_rows(
    rows: Seq<OutputRecord>,
    account_id: i64,
    min_height: u64,
    tip_height: u64,
    result: WalletDbResult<Vec<DbWalletOutput>>,
)
    requires
        spendable_listed(rows, account_id, min_height, tip_height, result),
    ensures
        ({
            let belongs = |r: OutputRecord|
                r.account_id == account_id && r.status == OutputStatus::Unspent
                    && r.deleted_at is None && !r.is_burn && r.mined_in_block_height <= (
                if min_height <= i64::MAX {
                    min_height as int
                } else {
                    min_height - 0x1_0000_0000_0000_0000
                }) && 0 <= r.maturity && r.maturity <= tip_height;
            let missing = exists|k: int|
                0 <= k < rows.len() && belongs(#[trigger] rows[k])
                    && rows[k].wallet_output_json is None;
            let garbled = exists|k: int|
                0 <= k < rows.len() && belongs(#[trigger] rows[k])
                    && rows[k].wallet_output_json is Some && decoded_wallet_output(
                    rows[k].wallet_output_json->0,
                ) is None;
            &&& result is Ok <==> !missing && !garbled
            &&& result is Err ==> (result->Err_0 is NullColumn <==> missing)
            &&& result is Err ==> (result->Err_0 is Json <==> !missing)
        }),
{
    broadcast use vstd::seq_lib::group_to_multiset_ensures;

    let p = spendable(account_id, min_height, tip_height);
    let hits = rows.filter(p);
    let sorted = by_value_descending(hits);
    law_ordering_keeps_the_rows(hits);
    assert forall|k: int| 0 <= k < rows.len() && p(#[trigger] rows[k]) implies exists|j: int|
        0 <= j < sorted.len() && #[trigger] sorted[j] == rows[k] by {
        let h = lemma_row_is_selected(rows, p, k);
        assert(hits.to_multiset().count(rows[k]) > 0);
        assert(sorted.contains(rows[k]));
    }
    match result {
        Err(WalletDbError::NullColumn) => {
            let j = choose|j: int|
                0 <= j < sorted.len() && (#[trigger] sorted[j]).wallet_output_json is None;
            let k = lemma_row_of_sorted(rows, p, j);
            assert(rows[k].wallet_output_json is None);
        },
        Err(WalletDbError::Json(_)) => {
            let j = choose|j: int| 0 <= j < sorted.len() && !decodable(#[trigger] sorted[j]);
            assert(!decodable(sorted[j]));
            let k = lemma_row_of_sorted(rows, p, j);
            assert(rows[k].wallet_output_json is Some);
        },
        _ => {},
    }
}

/// What counts towards the unspent balance of an account, and what it can spend: its own rows that
/// are unspent, neither deleted nor burned, and mature. Those that were mined no higher than
/// `min_height` can be spent, and nothing else can.
pub proof fn law_balance_and_spendable_rows(
    r: OutputRecord,
    account_id: i64,
    min_height: u64,
    tip_height: u64,
)
    ensures
        in_unspent_balance(account_id, tip_height)(r) <==> {
            &&& r.account_id == account_id
            &&& r.status == OutputStatus::Unspent
            &&& r.deleted_at is None
            &&& !r.is_burn
            &&& 0 <= r.maturity
            &&& r.maturity <= tip_height
        },
        spendable(account_id, min_height, tip_height)(r) <==> in_unspent_balance(
            account_id,
            tip_height,
        )(r) && r.mined_in_block_height <= (if min_height <= i64::MAX {
            min_height as int
        } else {
            min_height - 0x1_0000_0000_0000_0000
        }),
{
}

/// A row that is added to the table raises the unspent balance of an account by its value if the
/// account owns it, it is unspent, neither deleted nor burned, and its maturity is neither negative
/// nor above the tip. Any other row leaves the balance as it is. Without rows there is none.
pub proof fn law_balance_row_by_row(
    rows: Seq<OutputRecord>,
    r: OutputRecord,
    account_id: i64,
    tip_height: u64,
    before: u64,
    after: u64,
    none: WalletDbResult<u64>,
)
    requires
        balance_found(rows, account_id, tip_height, Ok(before)),
        balance_found(rows.push(r), account_id, tip_height, Ok(after)),
        balance_found(Seq::empty(), account_id, tip_height, none),
    ensures
        after == before + (if r.account_id == account_id && r.status == OutputStatus::Unspent
            && r.deleted_at is None && !r.is_burn && 0 <= r.maturity && r.maturity <= tip_height {
            r.value as int
        } else {
            0
        }),
        none is Ok && none->Ok_0 == 0,
{
    let p = in_unspent_balance(account_id, tip_height);
    lemma_selection_push(rows, r, p);
    assert(rows.filter(p).push(r).drop_last() =~= rows.filter(p));
    let empty = Seq::<OutputRecord>::empty();
    assert(sum_fits(empty)) by {
        assert forall|k: int| 0 <= k <= empty.len() implies i64::MIN <= #[trigger] value_sum(
            empty.take(k),
        ) <= i64::MAX by {
            assert(empty.take(k) =~= empty);
        }
    }
    assert(value_sum(empty) == 0);
}

proof fn lemma_sum_fits_push(rows: Seq<OutputRecord>, r: OutputRecord)
    ensures
        value_sum(rows.push(r)) == value_sum(rows) + r.value,
        sum_fits(rows.push(r)) <==> sum_fits(rows) && i64::MIN <= value_sum(rows) + r.value
            <= i64::MAX,
{
    let longer = rows.push(r);
    assert(longer.drop_last() =~= rows);
    assert(longer.take(longer.len() as int) =~= longer);
    assert forall|k: int| 0 <= k <= rows.len() implies longer.take(k) == #[trigger] rows.take(
        k,
    ) by {
        assert(longer.take(k) =~= rows.take(k));
    }
    if sum_fits(longer) {
        assert forall|k: int| 0 <= k <= rows.len() implies i64::MIN <= #[trigger] value_sum(
            rows.take(k),
        ) <= i64::MAX by {
            assert(longer.take(k) == rows.take(k));
            assert(i64::MIN <= value_sum(longer.take(k)) <= i64::MAX);
        }
        assert(i64::MIN <= value_sum(longer.take(longer.len() as int)) <= i64::MAX);
    }
    if sum_fits(rows) && i64::MIN <= value_sum(rows) + r.value <= i64::MAX {
        assert forall|k: int| 0 <= k <= longer.len() implies i64::MIN <= #[trigger] value_sum(
            longer.take(k),
        ) <= i64::MAX by {
            if k <= rows.len() {
                assert(longer.take(k) == rows.take(k));
                assert(i64::MIN <= value_sum(rows.take(k)) <= i64::MAX);
            }
        }
    }
}

/// As long as a balance stays a number that the column type can hold, it is found: a row that does
/// not count, or that keeps the balance in range, is no reason to refuse it. A balance that would be
/// too large, or negative, is refused as such.
pub proof fn law_balance_is_found(
    rows: Seq<OutputRecord>,
    r: OutputRecord,
    account_id: i64,
    tip_height: u64,
    before: u64,
    result: WalletDbResult<u64>,
)
    requires
        balance_found(rows, account_id, tip_height, Ok(before)),
        balance_found(rows.push(r), account_id, tip_height, result),
    ensures
        result is Ok <==> !(r.account_id == account_id && r.status == OutputStatus::Unspent
            && r.deleted_at is None && !r.is_burn && 0 <= r.maturity && r.maturity <= tip_height)
            || 0 <= before + r.value <= i64::MAX,
        result is Err && before + r.value < 0 ==> result->Err_0 is ValueOutOfRange
            && result->Err_0->ValueOutOfRange_0 == before + r.value,
        result is Err && before + r.value > i64::MAX ==> result->Err_0 is IntegerOverflow,
{
    let p = in_unspent_balance(account_id, tip_height);
    lemma_selection_push(rows, r, p);
    lemma_sum_fits_push(rows.filter(p), r);
}

/// The unspent balance of an account does not depend on the rows of other accounts: two tables that
/// hold the same rows of the account give the same answer.
pub proof fn law_balance_ignores_other_accounts(
    rows: Seq<OutputRecord>,
    others: Seq<OutputRecord>,
    account_id: i64,
    tip_height: u64,
    result: WalletDbResult<u64>,
    other_result: WalletDbResult<u64>,
)
    requires
        rows.filter(|r: OutputRecord| r.account_id == account_id) == others.filter(
            |r: OutputRecord| r.account_id == account_id,
        ),
        balance_found(rows, account_id, tip_height, result),
        balance_found(others, account_id, tip_height, other_result),
    ensures
        result is Ok <==> other_result is Ok,
        result is Ok ==> result->Ok_0 == other_result->Ok_0,
{
    let p = in_unspent_balance(account_id, tip_height);
    let q = |r: OutputRecord| r.account_id == account_id;
    lemma_selection_of_selection(rows, p, q);
    lemma_selection_of_selection(others, p, q);
}

/// What the parts of an account's totals gain when a row is added to the table. Rows of other
/// accounts, deleted, burned and spent rows add nothing. Of the others a locked row adds its value
/// to `locked`; else an unconfirmed one to `unconfirmed`; else one whose maturity is negative or
/// above the tip to `immature`; else to `available`. The parts are kept as unsigned numbers.
pub proof fn law_totals_row_by_row(
    rows: Seq<OutputRecord>,
    r: OutputRecord,
    account_id: i64,
    tip_height: u64,
    before: OutputTotals,
    after: OutputTotals,
)
    requires
        totals_found(rows, account_id, tip_height, Ok(before)),
        totals_found(rows.push(r), account_id, tip_height, Ok(after)),
    ensures
        ({
            let counts = r.account_id == account_id && r.deleted_at is None && !r.is_burn
                && r.status != OutputStatus::Spent;
            let locked = r.status == OutputStatus::Locked;
            let unconfirmed = !locked && r.confirmed_height is None;
            let immature = !locked && !unconfirmed && (r.maturity < 0 || r.maturity > tip_height);
            let available = !locked && !unconfirmed && !immature;
            let wrap = 0x1_0000_0000_0000_0000int;
            let gain = |here: bool| if counts && here { r.value as int } else { 0int };
            &&& after.locked.0 == (before.locked.0 + gain(locked)) % wrap
            &&& after.unconfirmed.0 == (before.unconfirmed.0 + gain(unconfirmed)) % wrap
            &&& after.immature.0 == (before.immature.0 + gain(immature)) % wrap
            &&& after.available.0 == (before.available.0 + gain(available)) % wrap
            &&& after.unavailable.0 == (if after.locked.0 + after.unconfirmed.0 + after.immature.0
                <= u64::MAX {
                after.locked.0 + after.unconfirmed.0 + after.immature.0
            } else {
                u64::MAX as int
            })
        }),
{
    assert forall|bucket: Bucket|
        {
            let old_rows = #[trigger] bucket_rows(rows, account_id, tip_height, bucket);
            let new_rows = bucket_rows(rows.push(r), account_id, tip_height, bucket);
            value_sum(new_rows) == value_sum(old_rows) + if in_bucket(
                account_id,
                tip_height,
                bucket,
            )(r) {
                r.value as int
            } else {
                0
            }
        } by {
        lemma_selection_push(rows, r, in_bucket(account_id, tip_height, bucket));
        lemma_sum_fits_push(bucket_rows(rows, account_id, tip_height, bucket), r);
    }
    assert forall|bucket: Bucket, table: Seq<OutputRecord>|
        sum_fits(#[trigger] bucket_rows(table, account_id, tip_height, bucket)) implies i64::MIN
        <= value_sum(bucket_rows(table, account_id, tip_height, bucket)) <= i64::MAX by {
        let counted = bucket_rows(table, account_id, tip_height, bucket);
        assert(counted.take(counted.len() as int) =~= counted);
    }
    let b0 = bucket_rows(rows, account_id, tip_height, Bucket::Locked);
    let b1 = bucket_rows(rows, account_id, tip_height, Bucket::Unconfirmed);
    let b2 = bucket_rows(rows, account_id, tip_height, Bucket::Immature);
    let b3 = bucket_rows(rows, account_id, tip_height, Bucket::Available);
    let c0 = bucket_rows(rows.push(r), account_id, tip_height, Bucket::Locked);
    let c1 = bucket_rows(rows.push(r), account_id, tip_height, Bucket::Unconfirmed);
    let c2 = bucket_rows(rows.push(r), account_id, tip_height, Bucket::Immature);
    let c3 = bucket_rows(rows.push(r), account_id, tip_height, Bucket::Available);
    assert(sum_fits(b0) && sum_fits(b1) && sum_fits(b2) && sum_fits(b3));
    assert(sum_fits(c0) && sum_fits(c1) && sum_fits(c2) && sum_fits(c3));
}

/// Without rows all parts of the totals are zero; and as long as the parts stay in the range of the
/// column type, they are found.
pub proof fn law_totals_are_found(
    rows: Seq<OutputRecord>,
    r: OutputRecord,
    account_id: i64,
    tip_height: u64,
    before: OutputTotals,
    result: WalletDbResult<OutputTotals>,
    none: WalletDbResult<OutputTotals>,
)
    requires
        totals_found(rows, account_id, tip_height, Ok(before)),
        totals_found(rows.push(r), account_id, tip_height, result),
        totals_found(Seq::empty(), account_id, tip_height, none),
        before.locked.0 + r.value <= i64::MAX,
        before.unconfirmed.0 + r.value <= i64::MAX,
        before.immature.0 + r.value <= i64::MAX,
        before.available.0 + r.value <= i64::MAX,
        r.value >= 0,
    ensures
        result is Ok,
        none is Ok,
        none->Ok_0.locked.0 == 0,
        none->Ok_0.unconfirmed.0 == 0,
        none->Ok_0.immature.0 == 0,
        none->Ok_0.available.0 == 0,
        none->Ok_0.unavailable.0 == 0,
{
    let empty = Seq::<OutputRecord>::empty();
    assert forall|bucket: Bucket| #[trigger]
        bucket_rows(empty, account_id, tip_height, bucket) == empty by {
        lemma_selection_push(empty, r, in_bucket(account_id, tip_height, bucket));
    }
    assert(sum_fits(empty)) by {
        assert forall|k: int| 0 <= k <= empty.len() implies i64::MIN <= #[trigger] value_sum(
            empty.take(k),
        ) <= i64::MAX by {
            assert(empty.take(k) =~= empty);
        }
    }
    assert(value_sum(empty) == 0);
    assert(value_sum(bucket_rows(empty, account_id, tip_height, Bucket::Locked)) == 0);
    assert(value_sum(bucket_rows(empty, account_id, tip_height, Bucket::Unconfirmed)) == 0);
    assert(value_sum(bucket_rows(empty, account_id, tip_height, Bucket::Immature)) == 0);
    assert(value_sum(bucket_rows(empty, account_id, tip_height, Bucket::Available)) == 0);
    assert forall|bucket: Bucket| sum_fits(
        #[trigger] bucket_rows(rows.push(r), account_id, tip_height, bucket),
    ) by {
        let counted = bucket_rows(rows, account_id, tip_height, bucket);
        assert(sum_fits(counted));
        assert(counted.take(counted.len() as int) =~= counted);
        assert(i64::MIN <= value_sum(counted.take(counted.len() as int)) <= i64::MAX);
        lemma_selection_push(rows, r, in_bucket(account_id, tip_height, bucket));
        lemma_sum_fits_push(counted, r);
        assert(value_sum(counted) + r.value <= i64::MAX) by {
            match bucket {
                Bucket::Locked => {},
                Bucket::Unconfirmed => {},
                Bucket::Immature => {},
                Bucket::Available => {},
            }
        }
    }
}

/// A look-up by hash is answered by the first live row with the hash, which stands at the place that
/// is named here; where there is none, it gives nothing. It gives the row's id, its transaction id
/// as it was before it was stored, the text of the wallet output and what that text decodes to, and
/// is refused exactly where the row holds no text, or a text that cannot be decoded.
pub proof fn law_look_up_by_hash(
    rows: Seq<OutputRecord>,
    hash: Seq<u8>,
    result: WalletDbResult<Option<(i64, TxId, WalletOutput)>>,
) -> (k: int)
    requires
        found_by_hash(rows, hash, result),
    ensures
        0 <= k <= rows.len(),
        forall|i: int|
            0 <= i < k ==> (#[trigger] rows[i]).output_hash != hash || rows[i].deleted_at is Some,
        k < rows.len() ==> rows[k].output_hash == hash && rows[k].deleted_at is None,
        result matches Ok(None) <==> k == rows.len(),
        result is Err <==> k < rows.len() && (rows[k].wallet_output_json is None
            || decoded_wallet_output(rows[k].wallet_output_json->0) is None),
        result is Err ==> (result->Err_0 is NullColumn <==> rows[k].wallet_output_json is None),
        result is Err ==> (result->Err_0 is Json <==> rows[k].wallet_output_json is Some),
        result matches Ok(Some((id, tx_id, output))) ==> {
            &&& k < rows.len()
            &&& rows[k].id == id
            &&& rows[k].tx_id == (if tx_id.0 <= i64::MAX {
                tx_id.0 as int
            } else {
                tx_id.0 - 0x1_0000_0000_0000_0000
            })
            &&& rows[k].wallet_output_json == Some(output.json@)
            &&& decoded_wallet_output(output.json@) == Some(
                (output.value.0, output.maturity, output.output_hash@),
            )
        },
{
    let p = has_hash(hash);
    let hits = rows.filter(p);
    if hits.len() > 0 {
        let k = lemma_first_of_selection(rows, p);
        assert forall|i: int| 0 <= i < k implies (#[trigger] rows[i]).output_hash != hash
            || rows[i].deleted_at is Some by {
            assert(!p(rows[i]));
        }
        k
    } else {
        assert forall|m: int| 0 <= m < rows.len() implies (#[trigger] rows[m]).output_hash != hash
            || rows[m].deleted_at is Some by {
            if p(rows[m]) {
                let j = lemma_row_is_selected(rows, p, m);
            }
        }
        rows.len() as int
    }
}

/// A look-up by account and hash is a look-up by hash among the account's own rows.
pub proof fn law_look_up_by_account_and_hash(
    rows: Seq<OutputRecord>,
    account_id: i64,
    hash: Seq<u8>,
    result: WalletDbResult<Option<(i64, TxId, WalletOutput)>>,
)
    requires
        found_by_account_and_hash(rows, account_id, hash, result),
    ensures
        found_by_hash(rows.filter(|r: OutputRecord| r.account_id == account_id), hash, result),
{
    let own = |r: OutputRecord| r.account_id == account_id;
    let p = has_account_and_hash(account_id, hash);
    lemma_selection_of_selection(rows, p, own);
    lemma_same_selection(rows.filter(own), p, has_hash(hash), own);
}

proof fn lemma_same_selection(
    rows: Seq<OutputRecord>,
    p: spec_fn(OutputRecord) -> bool,
    q: spec_fn(OutputRecord) -> bool,
    own: spec_fn(OutputRecord) -> bool,
)
    requires
        forall|r: OutputRecord| #[trigger] own(r) ==> p(r) == q(r),
        forall|i: int| 0 <= i < rows.len() ==> own(#[trigger] rows[i]),
    ensures
        rows.filter(p) == rows.filter(q),
    decreases rows.len(),
{
    reveal(Seq::filter);
    if rows.len() > 0 {
        let front = rows.drop_last();
        assert(forall|i: int| 0 <= i < front.len() ==> front[i] == rows[i]);
        lemma_same_selection(front, p, q, own);
        assert(own(rows[rows.len() - 1]));
    }
}

/// A row that is added to the table adds one entry to the end of the list of outputs that can be
/// confirmed, if the account owns it, it is neither confirmed nor deleted, and it was mined at least
/// the given number of blocks below the current height; any other row leaves the list as it is. The
/// entry shows the leading bytes of the hash, the height, the memos, the transaction id as it is
/// stored, and one for a burned output, else zero. Only an entry whose hash is too short is refused.
pub proof fn law_waiting_list_row_by_row(
    rows: Seq<OutputRecord>,
    r: OutputRecord,
    account_id: i64,
    current_height: u64,
    confirmation_blocks: u64,
    before: Vec<UnconfirmedOutputRow>,
    result: WalletDbResult<Vec<UnconfirmedOutputRow>>,
    none: WalletDbResult<Vec<UnconfirmedOutputRow>>,
)
    requires
        waiting_listed(rows, account_id, current_height, confirmation_blocks, Ok(before)),
        waiting_listed(rows.push(r), account_id, current_height, confirmation_blocks, result),
        waiting_listed(Seq::empty(), account_id, current_height, confirmation_blocks, none),
    ensures
        ({
            let highest = if current_height >= confirmation_blocks {
                current_height - confirmation_blocks
            } else {
                0
            };
            let waits = r.account_id == account_id && r.confirmed_height is None
                && r.deleted_at is None && r.mined_in_block_height <= (if highest <= i64::MAX {
                highest
            } else {
                highest - 0x1_0000_0000_0000_0000
            });
            let after = result->Ok_0@;
            let entry = after.last();
            &&& result is Ok <==> !waits || r.output_hash.len() >= 32
            &&& result is Err ==> result->Err_0 is ShortHash
            &&& result is Ok ==> after.len() == before@.len() + (if waits { 1int } else { 0int })
            &&& result is Ok ==> forall|j: int|
                0 <= j < before@.len() ==> (#[trigger] after[j])@ == before@[j]@
            &&& result is Ok && waits ==> {
                &&& entry.output_hash@.len() == 32
                &&& forall|b: int|
                    0 <= b < 32 ==> #[trigger] entry.output_hash@[b] == r.output_hash[b]
                &&& entry.mined_in_block_height == r.mined_in_block_height
                &&& entry.memo_parsed is Some <==> r.memo_parsed is Some
                &&& entry.memo_parsed is Some ==> entry.memo_parsed->0@ == r.memo_parsed->0
                &&& entry.memo_hex is Some <==> r.memo_hex is Some
                &&& entry.memo_hex is Some ==> entry.memo_hex->0@ == r.memo_hex->0
                &&& entry.tx_id == r.tx_id
                &&& entry.is_burn == (if r.is_burn { 1int } else { 0int })
            }
            &&& none is Ok && none->Ok_0@.len() == 0
        }),
{
    let p = awaits_confirmation(account_id, current_height, confirmation_blocks);
    let hits = rows.filter(p);
    lemma_selection_push(rows, r, p);
    assert(p(r) ==> rows.push(r).filter(p)[hits.len() as int] == r);
    assert(before@.map_values(|u: UnconfirmedOutputRow| u@).len() == hits.len());
    assert forall|j: int| 0 <= j < hits.len() implies (#[trigger] before@[j])@
        == unconfirmed_facts(hits[j]) by {
        assert(before@.map_values(|u: UnconfirmedOutputRow| u@)[j] == before@[j]@);
    }
    if result is Ok {
        let after = result->Ok_0@;
        let longer = rows.push(r).filter(p);
        assert(after.map_values(|u: UnconfirmedOutputRow| u@).len() == longer.len());
        assert forall|j: int| 0 <= j < longer.len() implies (#[trigger] after[j])@
            == unconfirmed_facts(longer[j]) by {
            assert(after.map_values(|u: UnconfirmedOutputRow| u@)[j] == after[j]@);
        }
    } else {
        let k = choose|k: int|
            0 <= k < rows.push(r).filter(p).len() && (
            #[trigger] rows.push(r).filter(p)[k]).output_hash.len() < 32;
        if k < hits.len() {
            assert(rows.push(r).filter(p)[k] == hits[k]);
        }
    }
    if none is Ok {
        assert(none->Ok_0@.map_values(|u: UnconfirmedOutputRow| u@).len() == none->Ok_0@.len());
    }
}

/// A row that is added to the table adds one entry to the end of the list of live outputs from a
/// height on, if the account owns it, it is not deleted and was mined at that height or above it;
/// any other row leaves the list as it is. The entry shows the row's hash, height and lock.
pub proof fn law_active_list_row_by_row(
    rows: Seq<OutputRecord>,
    r: OutputRecord,
    account_id: i64,
    height: u64,
    before: WalletDbResult<Vec<ReorgOutputInfo>>,
    result: WalletDbResult<Vec<ReorgOutputInfo>>,
    none: WalletDbResult<Vec<ReorgOutputInfo>>,
)
    requires
        active_listed(rows, account_id, height, before),
        active_listed(rows.push(r), account_id, height, result),
        active_listed(Seq::empty(), account_id, height, none),
    ensures
        ({
            let active = r.account_id == account_id && r.deleted_at is None
                && r.mined_in_block_height >= (if height <= i64::MAX {
                height as int
            } else {
                height - 0x1_0000_0000_0000_0000
            });
            let shorter = before->Ok_0@;
            let after = result->Ok_0@;
            let entry = after.last();
            &&& before is Ok && result is Ok && none is Ok
            &&& none->Ok_0@.len() == 0
            &&& after.len() == shorter.len() + (if active { 1int } else { 0int })
            &&& forall|j: int| 0 <= j < shorter.len() ==> (#[trigger] after[j])@ == shorter[j]@
            &&& active ==> {
                &&& entry.output_hash@ == r.output_hash
                &&& entry.mined_in_block_height == r.mined_in_block_height
                &&& entry.locked_by_request_id is Some <==> r.locked_by_request_id is Some
                &&& entry.locked_by_request_id is Some ==> entry.locked_by_request_id->0@
                    == r.locked_by_request_id->0
            }
        }),
{
    let p = active_from(account_id, height);
    let hits = rows.filter(p);
    let longer = rows.push(r).filter(p);
    lemma_selection_push(rows, r, p);
    let shorter = before->Ok_0@;
    let after = result->Ok_0@;
    assert(shorter.map_values(|u: ReorgOutputInfo| u@).len() == hits.len());
    assert(after.map_values(|u: ReorgOutputInfo| u@).len() == longer.len());
    assert(none->Ok_0@.map_values(|u: ReorgOutputInfo| u@).len() == none->Ok_0@.len());
    assert forall|j: int| 0 <= j < hits.len() implies (#[trigger] shorter[j])@ == reorg_facts(
        hits[j],
    ) by {
        assert(shorter.map_values(|u: ReorgOutputInfo| u@)[j] == shorter[j]@);
    }
    assert forall|j: int| 0 <= j < longer.len() implies (#[trigger] after[j])@ == reorg_facts(
        longer[j],
    ) by {
        assert(after.map_values(|u: ReorgOutputInfo| u@)[j] == after[j]@);
    }
}

/// A row that is added to the table adds one output to the end of the list of outputs under a
/// request, if it stands under that request, whatever its status; any other row leaves the list as
/// it is. The output is what the row stores. Only a row that holds no readable text is refused.
pub proof fn law_held_list_row_by_row(
    rows: Seq<OutputRecord>,
    r: OutputRecord,
    request_id: Seq<char>,
    before: Vec<DbWalletOutput>,
    result: WalletDbResult<Vec<DbWalletOutput>>,
    none: WalletDbResult<Vec<DbWalletOutput>>,
)
    requires
        held_listed(rows, request_id, Ok(before)),
        held_listed(rows.push(r), request_id, result),
        held_listed(Seq::empty(), request_id, none),
    ensures
        ({
            let under = r.locked_by_request_id == Some(request_id);
            let after = result->Ok_0@;
            let entry = after.last();
            &&& result is Ok <==> !under || r.wallet_output_json is Some && decoded_wallet_output(
                r.wallet_output_json->0,
            ) is Some
            &&& result is Ok ==> after.len() == before@.len() + (if under { 1int } else { 0int })
            &&& result is Ok ==> forall|j: int|
                0 <= j < before@.len() ==> (#[trigger] after[j])@ == before@[j]@
            &&& result is Ok && under ==> {
                &&& entry.id == r.id
                &&& r.tx_id == (if entry.tx_id.0 <= i64::MAX {
                    entry.tx_id.0 as int
                } else {
                    entry.tx_id.0 - 0x1_0000_0000_0000_0000
                })
                &&& r.wallet_output_json == Some(entry.output.json@)
                &&& decoded_wallet_output(entry.output.json@) == Some(
                    (entry.output.value.0, entry.output.maturity, entry.output.output_hash@),
                )
            }
            &&& none is Ok && none->Ok_0@.len() == 0
        }),
{
    let p = locked_by(request_id);
    let hits = rows.filter(p);
    let longer = rows.push(r).filter(p);
    lemma_selection_push(rows, r, p);
    assert(output_facts(before@).len() == hits.len());
    assert forall|j: int| 0 <= j < hits.len() implies (#[trigger] before@[j])@ == stored_output(
        hits[j],
    ) by {
        assert(output_facts(before@)[j] == before@[j]@);
    }
    assert(forall|j: int| 0 <= j < hits.len() ==> longer[j] == hits[j]);
    if p(r) {
        assert(longer[hits.len() as int] == r);
    }
    if result is Ok {
        let after = result->Ok_0@;
        assert(output_facts(after).len() == longer.len());
        assert forall|j: int| 0 <= j < longer.len() implies (#[trigger] after[j])@
            == stored_output(longer[j]) by {
            assert(output_facts(after)[j] == after[j]@);
        }
    } else {
        let k = choose|k: int| 0 <= k < longer.len() && !decodable(#[trigger] longer[k]);
        assert(!decodable(longer[k]));
        if k < hits.len() {
            assert(longer[k] == hits[k]);
        }
    }
    if none is Ok {
        assert(output_facts(none->Ok_0@).len() == none->Ok_0@.len());
    }
}

/// A look-up by id is answered by the first row with the id, deleted or not, which stands at the
/// place that is named here; where there is none, it gives nothing. What it gives shows every column
/// of the row, the status as its text.
pub proof fn law_look_up_by_id(
    rows: Seq<OutputRecord>,
    output_id: i64,
    result: WalletDbResult<Option<DbOutput>>,
) -> (k: int)
    requires
        handed_out(rows, output_id, result),
    ensures
        0 <= k <= rows.len(),
        forall|i: int| 0 <= i < k ==> (#[trigger] rows[i]).id != output_id,
        k < rows.len() ==> rows[k].id == output_id,
        result is Ok,
        result->Ok_0 is None <==> k == rows.len(),
        result->Ok_0 matches Some(o) ==> {
            &&& k < rows.len()
            &&& o.id == output_id
            &&& o.account_id == rows[k].account_id
            &&& o.output_hash@ == rows[k].output_hash
            &&& o.mined_in_block_hash@ == rows[k].mined_in_block_hash
            &&& o.mined_in_block_height == rows[k].mined_in_block_height
            &&& o.value == rows[k].value
            &&& o.created_at == rows[k].created_at
            &&& text(o.wallet_output_json) == rows[k].wallet_output_json
            &&& o.mined_timestamp == rows[k].mined_timestamp
            &&& o.confirmed_height == rows[k].confirmed_height
            &&& bytes(o.confirmed_hash) == rows[k].confirmed_hash
            &&& text(o.memo_parsed) == rows[k].memo_parsed
            &&& text(o.memo_hex) == rows[k].memo_hex
            &&& rows[k].status == OutputStatus::Unspent ==> o.status@ == "UNSPENT"@
            &&& rows[k].status == OutputStatus::Locked ==> o.status@ == "LOCKED"@
            &&& rows[k].status == OutputStatus::Spent ==> o.status@ == "SPENT"@
            &&& o.locked_at == rows[k].locked_at
            &&& text(o.locked_by_request_id) == rows[k].locked_by_request_id
            &&& o.deleted_at == rows[k].deleted_at
            &&& o.deleted_in_block_height == rows[k].deleted_in_block_height
            &&& text(o.payment_reference) == rows[k].payment_reference
            &&& o.maturity == rows[k].maturity
        },
{
    let p = has_id(output_id);
    let hits = rows.filter(p);
    if hits.len() > 0 {
        let k = lemma_first_of_selection(rows, p);
        assert forall|i: int| 0 <= i < k implies (#[trigger] rows[i]).id != output_id by {
            assert(!p(rows[i]));
        }
        k
    } else {
        assert forall|m: int| 0 <= m < rows.len() implies (#[trigger] rows[m]).id != output_id by {
            if p(rows[m]) {
                let j = lemma_row_is_selected(rows, p, m);
            }
        }
        rows.len() as int
    }
}

} // verus!
