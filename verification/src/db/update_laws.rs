//! What the changes to the tables do to every row and every ledger entry, in terms of their own
//! fields.
use crate::bindings::{deterministic_tx_id, hex_text};
use crate::db::balance_changes::{is_original, original_change};
use crate::db::error::WalletDbResult;
use crate::db::outputs::{
    active_from, balance_found, bucket_of, in_unspent_balance, output_stored, recorded_by,
    same_fields, soft_deleted, soft_deletion, spendable, with_confirmation, with_output_locked,
    with_output_status, with_outputs_unlocked, DbOutput,
};
use crate::db::query_laws::{
    lemma_row_is_selected, lemma_row_of_selection, lemma_selection_push, lemma_selection_rises,
};
use crate::db::tables::{
    BalanceChangeRow, ChangeRecord, OutputRecord, OutputRow, PendingTransaction, WalletDb,
    WalletState,
};
use crate::models::{
    as_signed, as_unsigned, bytes, decimal, status_text, text, OutputStatus, UtcTime,
};
use crate::wallet_output::WalletOutputFacts;
use vstd::prelude::*;

verus! {

/// Numbers up to the largest signed one are stored as they are; larger ones wrap round to the
/// negative numbers. Amounts are read back the other way.
pub proof fn law_stored_numbers(n: u64, m: i64)
    ensures
        as_signed(n) == (if n <= i64::MAX {
            n as int
        } else {
            n - 0x1_0000_0000_0000_0000
        }),
        as_unsigned(m) == (if m >= 0 {
            m as int
        } else {
            m + 0x1_0000_0000_0000_0000
        }),
{
}

/// The statuses are stored as these words.
pub proof fn law_status_words()
    ensures
        status_text(OutputStatus::Unspent) == "UNSPENT"@,
        status_text(OutputStatus::Locked) == "LOCKED"@,
        status_text(OutputStatus::Spent) == "SPENT"@,
{
}

/// A number is written digit by digit: a last digit behind the number without it, and a number
/// below ten as one digit.
pub proof fn law_decimal_digits(n: nat, d: nat)
    requires
        d < 10,
    ensures
        n > 0 ==> decimal(10 * n + d) == decimal(n) + decimal(d),
        decimal(0) == "0"@,
        decimal(1) == "1"@,
        decimal(2) == "2"@,
        decimal(3) == "3"@,
        decimal(4) == "4"@,
        decimal(5) == "5"@,
        decimal(6) == "6"@,
        decimal(7) == "7"@,
        decimal(8) == "8"@,
        decimal(9) == "9"@,
{
    reveal_strlit("0");
    reveal_strlit("1");
    reveal_strlit("2");
    reveal_strlit("3");
    reveal_strlit("4");
    reveal_strlit("5");
    reveal_strlit("6");
    reveal_strlit("7");
    reveal_strlit("8");
    reveal_strlit("9");
    assert(decimal(0) =~= "0"@);
    assert(decimal(1) =~= "1"@);
    assert(decimal(2) =~= "2"@);
    assert(decimal(3) =~= "3"@);
    assert(decimal(4) =~= "4"@);
    assert(decimal(5) =~= "5"@);
    assert(decimal(6) =~= "6"@);
    assert(decimal(7) =~= "7"@);
    assert(decimal(8) =~= "8"@);
    assert(decimal(9) =~= "9"@);
    if n > 0 {
        assert((10 * n + d) / 10 == n);
        assert((10 * n + d) % 10 == d);
        assert(decimal(10 * n + d) =~= decimal(n) + decimal(d));
    }
}

/// The row that is stored for an output holds what was handed in: the account, the hash, the height
/// and the hash of the block, the value and the maturity of the output, its text, the time, the
/// memos, the payment reference in hexadecimal, and whether it is burned. It is unspent, not
/// confirmed, not locked and not deleted. Its id lies above all earlier ones, its transaction id is
/// that of the view key and the output, and nothing else in the wallet changes. It is stored exactly
/// where the time lies in the calendar and an id is left; else nothing changes at all.
pub proof fn law_stored_row_holds_what_was_handed_in(
    before: WalletState,
    after: WalletState,
    account_id: i64,
    account_view_key: Seq<u8>,
    output_hash: Seq<u8>,
    output: WalletOutputFacts,
    block_height: u64,
    block_hash: Seq<u8>,
    mined_timestamp: u64,
    memo_parsed: Option<Seq<char>>,
    memo_hex: Option<Seq<char>>,
    payment_reference: Seq<u8>,
    is_burn: bool,
    result: WalletDbResult<i64>,
)
    requires
        before.wf(),
        output_stored(
            before,
            after,
            account_id,
            account_view_key,
            output_hash,
            output,
            block_height,
            block_hash,
            mined_timestamp,
            memo_parsed,
            memo_hex,
            payment_reference,
            is_burn,
            result,
        ),
    ensures
        ({
            let wrap = 0x1_0000_0000_0000_0000int;
            let seconds = if mined_timestamp <= i64::MAX {
                mined_timestamp as int
            } else {
                mined_timestamp - wrap
            };
            let row = after.outputs.last();
            let n = before.outputs.len();
            &&& result is Ok <==> -8_334_601_228_800 <= seconds <= 8_210_266_876_799 && (n == 0
                || before.outputs[n - 1].id < i64::MAX)
            &&& result is Err ==> after == before
            &&& result is Err ==> (result->Err_0 is Decoding <==> !(-8_334_601_228_800 <= seconds
                <= 8_210_266_876_799))
            &&& result is Err ==> (result->Err_0 is TableFull <==> -8_334_601_228_800 <= seconds
                <= 8_210_266_876_799)
            &&& result is Ok ==> {
                &&& after.outputs.len() == n + 1
                &&& forall|k: int| 0 <= k < n ==> #[trigger] after.outputs[k] == before.outputs[k]
                &&& after.balance_changes == before.balance_changes
                &&& after.pending_transactions == before.pending_transactions
                &&& after.scanned_tip_blocks == before.scanned_tip_blocks
                &&& row.id == result->Ok_0
                &&& forall|k: int| 0 <= k < n ==> (#[trigger] before.outputs[k]).id < row.id
                &&& n == 0 ==> row.id == 1
                &&& n > 0 ==> row.id == before.outputs[n - 1].id + 1
                &&& row.account_id == account_id
                &&& (if row.tx_id >= 0 { row.tx_id as int } else { row.tx_id + wrap })
                    == deterministic_tx_id(account_view_key, output.output_hash)
                &&& row.output_hash == output_hash
                &&& (if row.mined_in_block_height >= 0 {
                    row.mined_in_block_height as int
                } else {
                    row.mined_in_block_height + wrap
                }) == block_height
                &&& row.mined_in_block_hash == block_hash
                &&& (if row.value >= 0 { row.value as int } else { row.value + wrap })
                    == output.value.0
                &&& (if row.maturity >= 0 { row.maturity as int } else { row.maturity + wrap })
                    == output.maturity
                &&& row.mined_timestamp.seconds == seconds
                &&& row.mined_timestamp.nanos == 0
                &&& row.wallet_output_json == Some(output.json)
                &&& row.memo_parsed == memo_parsed
                &&& row.memo_hex == memo_hex
                &&& row.payment_reference == Some(hex_text(payment_reference))
                &&& row.is_burn == is_burn
                &&& row.status == OutputStatus::Unspent
                &&& row.confirmed_height is None
                &&& row.confirmed_hash is None
                &&& row.locked_at is None
                &&& row.locked_by_request_id is None
                &&& row.deleted_at is None
                &&& row.deleted_in_block_height is None
            }
        }),
{
    let n = before.outputs.len();
    if result is Ok {
        assert forall|k: int| 0 <= k < n implies (#[trigger] before.outputs[k]).id
            < after.outputs.last().id by {
            if k < n - 1 {
                assert(before.outputs[k].id < before.outputs[n - 1].id);
            }
        }
    }
}

/// An output that is stored as burned can be spent at no height, counts towards no balance and no
/// part of the totals, and leaves every unspent balance as it was.
pub proof fn law_burned_output_is_never_counted(
    before: WalletState,
    after: WalletState,
    account_id: i64,
    account_view_key: Seq<u8>,
    output_hash: Seq<u8>,
    output: WalletOutputFacts,
    block_height: u64,
    block_hash: Seq<u8>,
    mined_timestamp: u64,
    memo_parsed: Option<Seq<char>>,
    memo_hex: Option<Seq<char>>,
    payment_reference: Seq<u8>,
    id: i64,
    owner: i64,
    min_height: u64,
    tip_height: u64,
    balance: u64,
    later: WalletDbResult<u64>,
)
    requires
        output_stored(
            before,
            after,
            account_id,
            account_view_key,
            output_hash,
            output,
            block_height,
            block_hash,
            mined_timestamp,
            memo_parsed,
            memo_hex,
            payment_reference,
            true,
            Ok(id),
        ),
        balance_found(before.outputs, owner, tip_height, Ok(balance)),
        balance_found(after.outputs, owner, tip_height, later),
    ensures
        !spendable(owner, min_height, tip_height)(after.outputs.last()),
        !in_unspent_balance(owner, tip_height)(after.outputs.last()),
        bucket_of(after.outputs.last(), owner, tip_height) is None,
        later is Ok,
        later->Ok_0 == balance,
{
    let row = after.outputs.last();
    assert(after.outputs == before.outputs.push(row));
    lemma_selection_push(before.outputs, row, in_unspent_balance(owner, tip_height));
}

/// Confirming an output sets the height and the hash of the confirmation in the rows with its hash,
/// and changes nothing else in the wallet.
pub proof fn law_confirming_changes_one_hash(
    before: WalletState,
    hash: Seq<u8>,
    height: u64,
    block: Seq<u8>,
    k: int,
)
    requires
        0 <= k < before.outputs.len(),
    ensures
        ({
            let after = with_confirmation(before, hash, height, block);
            let stored = after.outputs[k].confirmed_height;
            &&& after.outputs.len() == before.outputs.len()
            &&& after.balance_changes == before.balance_changes
            &&& after.pending_transactions == before.pending_transactions
            &&& after.scanned_tip_blocks == before.scanned_tip_blocks
            &&& before.outputs[k].output_hash != hash ==> after.outputs[k] == before.outputs[k]
            &&& before.outputs[k].output_hash == hash ==> {
                &&& stored is Some
                &&& stored->0 == (if height <= i64::MAX {
                    height as int
                } else {
                    height - 0x1_0000_0000_0000_0000
                })
                &&& after.outputs[k] == (OutputRecord {
                    confirmed_height: stored,
                    confirmed_hash: Some(block),
                    ..before.outputs[k]
                })
            }
        }),
{
}

/// Setting a status sets it in the rows with the given id, and changes nothing else in the wallet.
pub proof fn law_setting_a_status_changes_one_row(
    before: WalletState,
    output_id: i64,
    status: OutputStatus,
    k: int,
)
    requires
        0 <= k < before.outputs.len(),
    ensures
        ({
            let after = with_output_status(before, output_id, status);
            &&& after.outputs.len() == before.outputs.len()
            &&& after.balance_changes == before.balance_changes
            &&& after.pending_transactions == before.pending_transactions
            &&& after.scanned_tip_blocks == before.scanned_tip_blocks
            &&& before.outputs[k].id != output_id ==> after.outputs[k] == before.outputs[k]
            &&& before.outputs[k].id == output_id ==> after.outputs[k] == (OutputRecord {
                status,
                ..before.outputs[k]
            })
        }),
{
}

/// Locking an output puts the request and the time on the row with the given id if that row is
/// unspent, and changes nothing else in the wallet; a row that is locked or spent stays as it is.
pub proof fn law_locking_changes_one_unspent_row(
    before: WalletState,
    output_id: i64,
    request_id: Seq<char>,
    locked_at: UtcTime,
    k: int,
)
    requires
        0 <= k < before.outputs.len(),
    ensures
        ({
            let after = with_output_locked(before, output_id, request_id, locked_at);
            let r = before.outputs[k];
            &&& after.outputs.len() == before.outputs.len()
            &&& after.balance_changes == before.balance_changes
            &&& after.pending_transactions == before.pending_transactions
            &&& after.scanned_tip_blocks == before.scanned_tip_blocks
            &&& r.id != output_id || r.status != OutputStatus::Unspent ==> after.outputs[k] == r
            &&& r.id == output_id && r.status == OutputStatus::Unspent ==> after.outputs[k] == (
            OutputRecord {
                status: OutputStatus::Locked,
                locked_by_request_id: Some(request_id),
                locked_at: Some(locked_at),
                ..r
            })
        }),
{
}

/// Giving the outputs of a request back frees the rows that stand under it and are locked, and
/// changes nothing else in the wallet: other requests keep theirs, and spent rows stay spent.
pub proof fn law_unlocking_frees_the_rows_of_one_request(
    before: WalletState,
    request_id: Seq<char>,
    k: int,
)
    requires
        0 <= k < before.outputs.len(),
    ensures
        ({
            let after = with_outputs_unlocked(before, request_id);
            let r = before.outputs[k];
            &&& after.outputs.len() == before.outputs.len()
            &&& after.balance_changes == before.balance_changes
            &&& after.pending_transactions == before.pending_transactions
            &&& after.scanned_tip_blocks == before.scanned_tip_blocks
            &&& r.locked_by_request_id != Some(request_id) || r.status != OutputStatus::Locked
                ==> after.outputs[k] == r
            &&& r.locked_by_request_id == Some(request_id) && r.status == OutputStatus::Locked
                ==> after.outputs[k] == (OutputRecord {
                status: OutputStatus::Unspent,
                locked_by_request_id: None,
                locked_at: None,
                ..r
            })
        }),
{
}

/// The entry that recorded an output is the first of the ledger that the output caused and that
/// takes nothing back; it stands at the place that is named here.
pub proof fn law_original_entry_is_the_first(
    changes: Seq<(i64, ChangeRecord)>,
    output_id: i64,
) -> (i: int)
    ensures
        0 <= i <= changes.len(),
        forall|j: int|
            0 <= j < i ==> (#[trigger] changes[j]).1.caused_by_output_id != Some(output_id)
                || changes[j].1.is_reversal,
        i < changes.len() ==> changes[i].1.caused_by_output_id == Some(output_id)
            && !changes[i].1.is_reversal,
        original_change(changes, output_id) == if i < changes.len() {
            Some(changes[i].0)
        } else {
            None
        },
    decreases changes.len(),
{
    if changes.len() == 0 {
        0
    } else {
        let front = changes.drop_last();
        let i = law_original_entry_is_the_first(front, output_id);
        assert(forall|j: int| 0 <= j < front.len() ==> front[j] == changes[j]);
        if i < front.len() {
            i
        } else if is_original(changes.last(), output_id) {
            changes.len() - 1
        } else {
            changes.len() as int
        }
    }
}

/// A reorganisation touches only rows that the account owns, that are not deleted and that were
/// mined at the height or above it: these are marked as deleted at the given time and height and
/// lose their payment references, and keep everything else. Rows of other accounts, rows below the
/// height and rows that are already deleted stay exactly as they are.
pub proof fn law_reorg_touches_only_the_rows_above(
    before: WalletState,
    after: WalletState,
    account_id: i64,
    height: u64,
    now: UtcTime,
    result: WalletDbResult<()>,
    k: int,
)
    requires
        soft_deletion(before, after, account_id, height, now, result),
        0 <= k < before.outputs.len(),
    ensures
        ({
            let r = before.outputs[k];
            let lowest = if height <= i64::MAX {
                height as int
            } else {
                height - 0x1_0000_0000_0000_0000
            };
            let gone = after.outputs[k].deleted_in_block_height;
            &&& after.outputs.len() == before.outputs.len()
            &&& after.pending_transactions == before.pending_transactions
            &&& after.scanned_tip_blocks == before.scanned_tip_blocks
            &&& result is Err ==> after == before
            &&& r.account_id != account_id ==> after.outputs[k] == r
            &&& r.mined_in_block_height < lowest ==> after.outputs[k] == r
            &&& r.deleted_at is Some ==> after.outputs[k] == r
            &&& result is Ok && r.account_id == account_id && r.mined_in_block_height >= lowest
                && r.deleted_at is None ==> {
                &&& gone is Some
                &&& gone->0 == lowest
                &&& after.outputs[k] == (OutputRecord {
                    deleted_at: Some(now),
                    deleted_in_block_height: gone,
                    payment_reference: None,
                    ..r
                })
            }
        }),
{
    if result is Ok {
        assert(after.outputs[k] == soft_deleted(before.outputs[k], account_id, height, now));
    }
}

/// Every entry that a reorganisation adds to the ledger is caused by a row that the account owns,
/// that was not deleted and was mined at the height or above it, and takes back what that row is
/// worth: under the account, at the given time and height, as a reversal of the entry that recorded
/// the output, with a description that names the height, and with nothing else.
pub proof fn law_reorg_entries_take_back_removed_rows(
    before: WalletState,
    after: WalletState,
    account_id: i64,
    height: u64,
    now: UtcTime,
    e: int,
) -> (k: int)
    requires
        soft_deletion(before, after, account_id, height, now, Ok(())),
        before.balance_changes.len() <= e < after.balance_changes.len(),
    ensures
        0 <= k < before.outputs.len(),
        ({
            let r = before.outputs[k];
            let c = after.balance_changes[e].1;
            &&& r.account_id == account_id
            &&& r.deleted_at is None
            &&& r.mined_in_block_height >= (if height <= i64::MAX {
                height as int
            } else {
                height - 0x1_0000_0000_0000_0000
            })
            &&& after.balance_changes[e].0 == (if before.balance_changes.len() == 0 {
                1
            } else {
                before.balance_changes.last().0 + 1
            }) + (e - before.balance_changes.len())
            &&& c.caused_by_output_id == Some(r.id)
            &&& c.caused_by_input_id is None
            &&& c.account_id == account_id
            &&& c.balance_credit.0 == 0
            &&& c.balance_debit.0 == (if r.value >= 0 {
                r.value as int
            } else {
                r.value + 0x1_0000_0000_0000_0000
            })
            &&& c.effective_date == now
            &&& c.effective_height == height
            &&& c.description == "Reversal: Output found in blockchain scan (reorg at height "@
                + decimal(height as nat) + ")"@
            &&& c.is_reversal
            &&& !c.is_reversed
            &&& c.reversal_of_balance_change_id == original_change(before.balance_changes, r.id)
            &&& c.claimed_recipient_address is None
            &&& c.claimed_sender_address is None
            &&& c.memo_parsed is None
            &&& c.memo_hex is None
            &&& c.claimed_fee is None
            &&& c.claimed_amount is None
        }),
{
    let p = active_from(account_id, height);
    let n = before.balance_changes.len();
    lemma_row_of_selection(before.outputs, p, e - n)
}

/// No two entries that a reorganisation adds to the ledger are caused by the same row.
pub proof fn law_reorg_takes_no_row_back_twice(
    before: WalletState,
    after: WalletState,
    account_id: i64,
    height: u64,
    now: UtcTime,
    d: int,
    e: int,
)
    requires
        before.wf(),
        soft_deletion(before, after, account_id, height, now, Ok(())),
        before.balance_changes.len() <= d < e < after.balance_changes.len(),
    ensures
        after.balance_changes[d].1.caused_by_output_id
            != after.balance_changes[e].1.caused_by_output_id,
{
    let p = active_from(account_id, height);
    let n = before.balance_changes.len() as int;
    let removed = before.outputs.filter(p);
    lemma_selection_rises(before.outputs, p);
    assert(removed[d - n].id < removed[e - n].id);
}

/// For every row that the account owns, that is not deleted and was mined at the height or above it,
/// a reorganisation adds an entry to the ledger; it stands at the place that is named here.
pub proof fn law_reorg_takes_a_row_back(
    before: WalletState,
    after: WalletState,
    account_id: i64,
    height: u64,
    now: UtcTime,
    k: int,
) -> (c: int)
    requires
        soft_deletion(before, after, account_id, height, now, Ok(())),
        0 <= k < before.outputs.len(),
        before.outputs[k].account_id == account_id,
        before.outputs[k].deleted_at is None,
        before.outputs[k].mined_in_block_height >= (if height <= i64::MAX {
            height as int
        } else {
            height - 0x1_0000_0000_0000_0000
        }),
    ensures
        before.balance_changes.len() <= c < after.balance_changes.len(),
        after.balance_changes[c].1.caused_by_output_id == Some(before.outputs[k].id),
{
    let p = active_from(account_id, height);
    let j = lemma_row_is_selected(before.outputs, p, k);
    before.balance_changes.len() + j
}

/// The entries that stood in the ledger keep all they say, but for the mark of being reversed: an
/// entry gets it if it recorded a row that the account owns, that was not deleted and was mined at
/// the height or above it, and keeps it if it had it.
pub proof fn law_reorg_marks_only_original_entries(
    before: WalletState,
    after: WalletState,
    account_id: i64,
    height: u64,
    now: UtcTime,
    i: int,
)
    requires
        soft_deletion(before, after, account_id, height, now, Ok(())),
        0 <= i < before.balance_changes.len(),
    ensures
        ({
            let old_entry = before.balance_changes[i];
            let new_entry = after.balance_changes[i];
            let lowest = if height <= i64::MAX {
                height as int
            } else {
                height - 0x1_0000_0000_0000_0000
            };
            &&& new_entry.0 == old_entry.0
            &&& new_entry.1 == (ChangeRecord {
                is_reversed: new_entry.1.is_reversed,
                ..old_entry.1
            })
            &&& new_entry.1.is_reversed <==> old_entry.1.is_reversed || exists|k: int|
                {
                    &&& 0 <= k < before.outputs.len()
                    &&& (#[trigger] before.outputs[k]).account_id == account_id
                    &&& before.outputs[k].deleted_at is None
                    &&& before.outputs[k].mined_in_block_height >= lowest
                    &&& original_change(before.balance_changes, before.outputs[k].id) == Some(
                        old_entry.0,
                    )
                }
        }),
{
    let p = active_from(account_id, height);
    let removed = before.outputs.filter(p);
    let id = before.balance_changes[i].0;
    if recorded_by(before.balance_changes, removed, id) {
        let j = choose|j: int|
            0 <= j < removed.len() && original_change(
                before.balance_changes,
                (#[trigger] removed[j]).id,
            ) == Some(id);
        let k = lemma_row_of_selection(before.outputs, p, j);
        assert(before.outputs[k].account_id == account_id);
    }
    assert forall|k: int|
        0 <= k < before.outputs.len() && p(#[trigger] before.outputs[k]) && original_change(
            before.balance_changes,
            before.outputs[k].id,
        ) == Some(id) implies recorded_by(before.balance_changes, removed, id) by {
        let j = lemma_row_is_selected(before.outputs, p, k);
        assert(original_change(before.balance_changes, removed[j].id) == Some(id));
    }
}

/// A reorganisation is refused only where the ledger has fewer ids left than there are outputs.
pub proof fn law_reorg_succeeds_where_ids_are_left(
    before: WalletState,
    after: WalletState,
    account_id: i64,
    height: u64,
    now: UtcTime,
    result: WalletDbResult<()>,
)
    requires
        soft_deletion(before, after, account_id, height, now, result),
        before.balance_changes.len() == 0 ==> before.outputs.len() <= i64::MAX,
        before.balance_changes.len() > 0 ==> before.balance_changes.last().0
            + before.outputs.len() <= i64::MAX,
    ensures
        result is Ok,
        after.balance_changes.len() == before.balance_changes.len() + before.outputs.filter(
            |r: OutputRecord|
                r.account_id == account_id && r.deleted_at is None && r.mined_in_block_height >= (
                if height <= i64::MAX {
                    height as int
                } else {
                    height - 0x1_0000_0000_0000_0000
                }),
        ).len(),
{
    let p = active_from(account_id, height);
    before.outputs.lemma_filter_len(p);
    let q = |r: OutputRecord|
        r.account_id == account_id && r.deleted_at is None && r.mined_in_block_height >= (
        if height <= i64::MAX {
            height as int
        } else {
            height - 0x1_0000_0000_0000_0000
        });
    assert(p =~= q);
}

/// What is said of a table row is what its columns hold, column by column.
pub proof fn law_rows_say_what_their_columns_hold(
    r: OutputRow,
    c: BalanceChangeRow,
    p: PendingTransaction,
    db: WalletDb,
)
    ensures
        r@.id == r.id,
        r@.account_id == r.account_id,
        r@.tx_id == r.tx_id,
        r@.output_hash == r.output_hash@,
        r@.mined_in_block_height == r.mined_in_block_height,
        r@.mined_in_block_hash == r.mined_in_block_hash@,
        r@.value == r.value,
        r@.created_at == r.created_at,
        r@.mined_timestamp == r.mined_timestamp,
        r@.wallet_output_json == text(r.wallet_output_json),
        r@.memo_parsed == text(r.memo_parsed),
        r@.memo_hex == text(r.memo_hex),
        r@.payment_reference == text(r.payment_reference),
        r@.is_burn == r.is_burn,
        r@.maturity == r.maturity,
        r@.status == r.status,
        r@.confirmed_height == r.confirmed_height,
        r@.confirmed_hash == bytes(r.confirmed_hash),
        r@.locked_at == r.locked_at,
        r@.locked_by_request_id == text(r.locked_by_request_id),
        r@.deleted_at == r.deleted_at,
        r@.deleted_in_block_height == r.deleted_in_block_height,
        c@.0 == c.id,
        c@.1.account_id == c.change.account_id,
        c@.1.caused_by_output_id == c.change.caused_by_output_id,
        c@.1.caused_by_input_id == c.change.caused_by_input_id,
        c@.1.description == c.change.description@,
        c@.1.balance_credit == c.change.balance_credit,
        c@.1.balance_debit == c.change.balance_debit,
        c@.1.effective_date == c.change.effective_date,
        c@.1.effective_height == c.change.effective_height,
        c@.1.claimed_recipient_address == text(c.change.claimed_recipient_address),
        c@.1.claimed_sender_address == text(c.change.claimed_sender_address),
        c@.1.memo_parsed == text(c.change.memo_parsed),
        c@.1.memo_hex == text(c.change.memo_hex),
        c@.1.claimed_fee == c.change.claimed_fee,
        c@.1.claimed_amount == c.change.claimed_amount,
        c@.1.is_reversal == c.change.is_reversal,
        c@.1.reversal_of_balance_change_id == c.change.reversal_of_balance_change_id,
        c@.1.is_reversed == c.change.is_reversed,
        p@.id == p.id@,
        p@.idempotency_key == p.idempotency_key@,
        p@.account_id == p.account_id,
        p@.requires_change_output == p.requires_change_output,
        p@.total_value == p.total_value,
        p@.fee_without_change == p.fee_without_change,
        p@.fee_with_change == p.fee_with_change,
        p@.expires_at == p.expires_at,
        db@.outputs.len() == db.outputs@.len(),
        forall|k: int| 0 <= k < db.outputs@.len() ==> #[trigger] db@.outputs[k] == db.outputs@[k]@,
        db@.balance_changes.len() == db.balance_changes@.len(),
        forall|k: int|
            0 <= k < db.balance_changes@.len() ==> #[trigger] db@.balance_changes[k]
                == db.balance_changes@[k]@,
        db@.pending_transactions.len() == db.pending_transactions@.len(),
        forall|k: int|
            0 <= k < db.pending_transactions@.len() ==> #[trigger] db@.pending_transactions[k]
                == db.pending_transactions@[k]@,
        db@.scanned_tip_blocks == db.scanned_tip_blocks@,
        forall|t: Option<String>|
            #![trigger text(t)]
            (text(t) is Some <==> t is Some) && (t is Some ==> text(t)->0 == t->0@),
        forall|t: Option<Vec<u8>>|
            #![trigger bytes(t)]
            (bytes(t) is Some <==> t is Some) && (t is Some ==> bytes(t)->0 == t->0@),
{
}

/// A copy of a row that was handed out shows what the row shows, column by column.
pub proof fn law_copies_show_the_same(a: DbOutput, b: DbOutput)
    requires
        same_fields(a, b),
    ensures
        a.id == b.id,
        a.account_id == b.account_id,
        a.output_hash@ == b.output_hash@,
        a.mined_in_block_hash@ == b.mined_in_block_hash@,
        a.mined_in_block_height == b.mined_in_block_height,
        a.value == b.value,
        a.created_at == b.created_at,
        text(a.wallet_output_json) == text(b.wallet_output_json),
        a.mined_timestamp == b.mined_timestamp,
        a.confirmed_height == b.confirmed_height,
        bytes(a.confirmed_hash) == bytes(b.confirmed_hash),
        text(a.memo_parsed) == text(b.memo_parsed),
        text(a.memo_hex) == text(b.memo_hex),
        a.status@ == b.status@,
        a.locked_at == b.locked_at,
        text(a.locked_by_request_id) == text(b.locked_by_request_id),
        a.deleted_at == b.deleted_at,
        a.deleted_in_block_height == b.deleted_in_block_height,
        text(a.payment_reference) == text(b.payment_reference),
        a.maturity == b.maturity,
{
}

} // verus!
