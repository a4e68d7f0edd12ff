//! The queries on the outputs table.
use minotari::db::balance_changes::{get_balance_change_id_by_output, insert_balance_change};
use minotari::db::error::WalletDbError;
use minotari::db::outputs::{
    fetch_outputs_by_lock_request_id, fetch_unspent_outputs, get_active_outputs_from_height,
    get_output_by_id, get_output_info_by_hash, get_output_info_by_hash_for_account,
    get_output_totals_for_account, get_total_unspent_balance, get_unconfirmed_outputs,
    insert_output, lock_output, mark_output_confirmed, soft_delete_outputs_at,
    soft_delete_outputs_from_height, unlock_outputs_for_request, update_output_status,
};
use minotari::db::tables::{BalanceChange, BalanceChangeRow, OutputRow, WalletDb};
use minotari::models::{
    number_to_string, FixedHash, MicroMinotari, OutputStatus, TxId, UtcTime,
};
use minotari::wallet_output::WalletOutput;
use tari_common_types::types::{ComAndPubSignature, CompressedPublicKey};
use tari_script::{ExecutionStack, TariScript};
use tari_transaction_components::key_manager::TariKeyId;
use tari_transaction_components::transaction_components::covenants::Covenant;
use tari_transaction_components::transaction_components::{
    EncryptedData, MemoField, OutputFeatures, TransactionOutputVersion,
};

const ACCOUNT: i64 = 7;

fn at(seconds: i64) -> UtcTime {
    UtcTime { seconds, nanos: 0 }
}

/// Adds a row to the outputs table as it stands, without a real wallet output.
fn insert_synthetic_output(
    db: &mut WalletDb,
    account_id: i64,
    output_hash: u8,
    value: u64,
    mined_in_block_height: u64,
    confirmed: bool,
    status: OutputStatus,
    maturity: i64,
) {
    let id = db.outputs.last().map_or(1, |row| row.id + 1);
    db.outputs.push(OutputRow {
        id,
        account_id,
        tx_id: output_hash as i64,
        output_hash: vec![output_hash; 32],
        mined_in_block_height: mined_in_block_height as i64,
        mined_in_block_hash: vec![output_hash; 32],
        value: value as i64,
        created_at: at(1_700_000_000),
        mined_timestamp: at(1_700_000_000),
        wallet_output_json: Some("{}".to_string()),
        memo_parsed: None,
        memo_hex: None,
        payment_reference: None,
        is_burn: false,
        maturity,
        status,
        confirmed_height: if confirmed { Some(mined_in_block_height as i64) } else { None },
        confirmed_hash: if confirmed { Some(vec![1u8; 32]) } else { None },
        locked_at: None,
        locked_by_request_id: None,
        deleted_at: None,
        deleted_in_block_height: None,
    });
}

/// A wallet output with the given value, maturity and first byte of its hash.
fn wallet_output(value: u64, maturity: u64, hash_seed: u8) -> WalletOutput {
    let mut hash = [0u8; 32];
    hash[0] = hash_seed;
    let features = OutputFeatures { maturity, ..Default::default() };
    let output = tari_transaction_components::transaction_components::WalletOutput::new_from_parts(
        TransactionOutputVersion::default(),
        value.into(),
        TariKeyId::default(),
        features,
        TariScript::default(),
        ExecutionStack::default(),
        TariKeyId::default(),
        CompressedPublicKey::default(),
        ComAndPubSignature::default(),
        0,
        Covenant::default(),
        EncryptedData::default(),
        0.into(),
        None,
        MemoField::new_empty(),
        hash.into(),
        Default::default(),
    );
    let json = serde_json::to_string(&output).expect("serialize a wallet output");
    WalletOutput::from_json(&json).expect("decode a wallet output")
}

/// Stores a wallet output that was mined at the given height.
fn store(db: &mut WalletDb, output: &WalletOutput, height: u64) -> i64 {
    insert_output(
        db,
        ACCOUNT,
        &[9u8; 32],
        output.output_hash().to_vec(),
        output,
        height,
        &FixedHash([3u8; 32]),
        1_700_000_000,
        None,
        None,
        FixedHash([0xabu8; 32]),
        false,
    )
    .expect("insert output")
}

fn credit(output_id: i64, amount: u64) -> BalanceChange {
    BalanceChange {
        account_id: ACCOUNT,
        caused_by_output_id: Some(output_id),
        caused_by_input_id: None,
        description: "Output found in blockchain scan".to_string(),
        balance_credit: MicroMinotari(amount),
        balance_debit: MicroMinotari(0),
        effective_date: at(1_700_000_000),
        effective_height: 100,
        claimed_recipient_address: None,
        claimed_sender_address: None,
        memo_parsed: None,
        memo_hex: None,
        claimed_fee: None,
        claimed_amount: None,
        is_reversal: false,
        reversal_of_balance_change_id: None,
        is_reversed: false,
    }
}

#[test]
fn unspent_balance_excludes_immature() {
    let mut db = WalletDb::new();
    let account_id = ACCOUNT;

    // Mature: 50 is not above the tip.
    insert_synthetic_output(&mut db, account_id, 1, 1_000, 100, true, OutputStatus::Unspent, 50);
    // Immature: 200 is above the tip.
    insert_synthetic_output(&mut db, account_id, 2, 5_000, 100, true, OutputStatus::Unspent, 200);
    // Matures exactly at the tip.
    insert_synthetic_output(&mut db, account_id, 3, 2_000, 100, true, OutputStatus::Unspent, 150);

    let total = get_total_unspent_balance(&db, account_id, 150).expect("total");
    assert_eq!(total, 1_000 + 2_000, "immature 5_000 µT must be excluded");

    let total_after_tip = get_total_unspent_balance(&db, account_id, 200).expect("total");
    assert_eq!(total_after_tip, 1_000 + 5_000 + 2_000);
}

#[test]
fn output_totals_partition_is_disjoint() {
    let mut db = WalletDb::new();
    let account_id = ACCOUNT;

    // Confirmed, mature, unspent: available.
    insert_synthetic_output(&mut db, account_id, 1, 1_000, 50, true, OutputStatus::Unspent, 0);
    // Confirmed, immature, unspent: immature.
    insert_synthetic_output(&mut db, account_id, 2, 4_000, 50, true, OutputStatus::Unspent, 500);
    // Unconfirmed, mature, unspent: unconfirmed.
    insert_synthetic_output(&mut db, account_id, 3, 2_000, 99, false, OutputStatus::Unspent, 0);
    // Locked, mature, confirmed: locked.
    insert_synthetic_output(&mut db, account_id, 4, 8_000, 50, true, OutputStatus::Locked, 0);
    // Locked, unconfirmed and immature: counts as locked only.
    insert_synthetic_output(&mut db, account_id, 5, 16_000, 99, false, OutputStatus::Locked, 500);

    let totals = get_output_totals_for_account(&db, account_id, 100).expect("totals");
    assert_eq!(totals.available, MicroMinotari::from(1_000));
    assert_eq!(totals.unconfirmed, MicroMinotari::from(2_000));
    assert_eq!(totals.immature, MicroMinotari::from(4_000));
    assert_eq!(totals.locked, MicroMinotari::from(8_000 + 16_000));
    assert_eq!(totals.unavailable, MicroMinotari::from(2_000 + 4_000 + 8_000 + 16_000));
    assert_eq!(
        totals.available.saturating_add(totals.unavailable),
        MicroMinotari::from(1_000 + 2_000 + 4_000 + 8_000 + 16_000),
    );
}

#[test]
fn negative_maturity_is_treated_as_immature() {
    let mut db = WalletDb::new();
    let account_id = ACCOUNT;

    insert_synthetic_output(&mut db, account_id, 1, 1_000, 50, true, OutputStatus::Unspent, 10);
    // A maturity of `u64::MAX` wraps round to -1.
    insert_synthetic_output(&mut db, account_id, 2, 9_000, 50, true, OutputStatus::Unspent, -1);
    insert_synthetic_output(&mut db, account_id, 3, 5_000, 50, true, OutputStatus::Unspent, i64::MIN);

    let total = get_total_unspent_balance(&db, account_id, u64::MAX).expect("total");
    assert_eq!(
        total, 1_000,
        "wrapped-negative maturities must be excluded even at tip = u64::MAX"
    );

    let totals = get_output_totals_for_account(&db, account_id, u64::MAX).expect("totals");
    assert_eq!(totals.available, MicroMinotari::from(1_000));
    assert_eq!(totals.immature, MicroMinotari::from(9_000 + 5_000));
    assert_eq!(totals.unavailable, MicroMinotari::from(9_000 + 5_000));
}

#[test]
fn what_can_be_spent_is_in_the_balance() {
    let mut db = WalletDb::new();
    store(&mut db, &wallet_output(100, 0, 1), 90);
    store(&mut db, &wallet_output(200, 0, 2), 110);
    store(&mut db, &wallet_output(400, 120, 3), 90);
    mark_output_confirmed(&mut db, &wallet_output(100, 0, 1).output_hash(), 95, &[1u8; 32])
        .expect("confirm");
    let spendable: u64 = fetch_unspent_outputs(&db, ACCOUNT, 100, 110)
        .expect("list")
        .iter()
        .map(|o| o.value().as_u64())
        .sum();
    let totals = get_output_totals_for_account(&db, ACCOUNT, 110).expect("totals");
    assert_eq!(spendable, 100);
    assert_eq!(totals.available, MicroMinotari(100));
    assert_eq!(totals.unconfirmed, MicroMinotari(200 + 400));
    assert_eq!(get_total_unspent_balance(&db, ACCOUNT, 110).expect("total"), 100 + 200);
}

#[test]
fn spent_outputs_count_towards_no_total() {
    let mut db = WalletDb::new();
    insert_synthetic_output(&mut db, ACCOUNT, 1, 1_000, 50, false, OutputStatus::Spent, 0);
    insert_synthetic_output(&mut db, ACCOUNT, 2, 2_000, 50, true, OutputStatus::Spent, 500);
    insert_synthetic_output(&mut db, ACCOUNT, 3, 4_000, 50, true, OutputStatus::Spent, 0);
    insert_synthetic_output(&mut db, ACCOUNT + 1, 4, 8_000, 50, true, OutputStatus::Unspent, 0);
    let totals = get_output_totals_for_account(&db, ACCOUNT, 100).expect("totals");
    assert_eq!(totals.available, MicroMinotari(0));
    assert_eq!(totals.unavailable, MicroMinotari(0));
}

#[test]
fn sums_that_leave_the_column_are_errors() {
    let mut db = WalletDb::new();
    insert_synthetic_output(&mut db, ACCOUNT, 1, i64::MAX as u64, 50, true, OutputStatus::Unspent, 0);
    assert_eq!(get_total_unspent_balance(&db, ACCOUNT, 10).expect("total"), i64::MAX as u64);
    insert_synthetic_output(&mut db, ACCOUNT, 2, 1, 50, true, OutputStatus::Unspent, 0);
    assert!(matches!(
        get_total_unspent_balance(&db, ACCOUNT, 10),
        Err(WalletDbError::IntegerOverflow)
    ));
    assert!(matches!(
        get_output_totals_for_account(&db, ACCOUNT, 10),
        Err(WalletDbError::IntegerOverflow)
    ));
}

#[test]
fn a_negative_balance_is_an_error() {
    let mut db = WalletDb::new();
    insert_synthetic_output(&mut db, ACCOUNT, 1, u64::MAX - 4, 50, true, OutputStatus::Unspent, 0);
    assert!(matches!(
        get_total_unspent_balance(&db, ACCOUNT, 10),
        Err(WalletDbError::ValueOutOfRange(-5))
    ));
    let totals = get_output_totals_for_account(&db, ACCOUNT, 10).expect("totals");
    assert_eq!(totals.available, MicroMinotari(u64::MAX - 4));
}

#[test]
fn a_stored_output_is_found_under_its_hash() {
    let mut db = WalletDb::new();
    let output = wallet_output(500, 12, 42);
    let id = store(&mut db, &output, 100);
    assert_eq!(id, 1);
    let row = &db.outputs[0];
    assert_eq!(row.value, 500);
    assert_eq!(row.maturity, 12);
    assert_eq!(row.mined_in_block_height, 100);
    assert_eq!(row.mined_timestamp, at(1_700_000_000));
    assert_eq!(row.payment_reference, Some("ab".repeat(32)));
    assert_eq!(row.status, OutputStatus::Unspent);

    let hash = output.output_hash();
    assert_eq!(hash.0[0], 42);
    let expected_tx_id =
        tari_common_types::transaction::TxId::new_deterministic(&[9u8; 32], &hash.0).as_u64();
    let (found_id, tx_id, found) = get_output_info_by_hash(&db, &hash).expect("look up").expect("found");
    assert_eq!(found_id, id);
    assert_eq!(tx_id, TxId(expected_tx_id));
    assert_ne!(tx_id, TxId(0));
    assert_eq!(found.json, output.json);
    assert_eq!(found.value(), MicroMinotari(500));

    let of_account = get_output_info_by_hash_for_account(&db, ACCOUNT, &hash).expect("look up");
    assert_eq!(of_account.expect("found").0, id);
    assert!(get_output_info_by_hash_for_account(&db, ACCOUNT + 1, &hash).expect("look up").is_none());
    assert!(get_output_info_by_hash(&db, &FixedHash([1u8; 32])).expect("look up").is_none());
}

#[test]
fn values_above_the_column_wrap_round() {
    let mut db = WalletDb::new();
    let output = wallet_output(u64::MAX, u64::MAX, 1);
    store(&mut db, &output, u64::MAX);
    assert_eq!(db.outputs[0].value, -1);
    assert_eq!(db.outputs[0].maturity, -1);
    assert_eq!(db.outputs[0].mined_in_block_height, -1);
    assert!(fetch_unspent_outputs(&db, ACCOUNT, 0, u64::MAX).expect("list").is_empty());
}

#[test]
fn a_timestamp_beyond_the_calendar_is_refused() {
    let mut db = WalletDb::new();
    let output = wallet_output(500, 0, 1);
    let mut insert = |timestamp: u64| {
        insert_output(
            &mut db,
            ACCOUNT,
            &[9u8; 32],
            output.output_hash().to_vec(),
            &output,
            1,
            &FixedHash([3u8; 32]),
            timestamp,
            None,
            None,
            FixedHash([0u8; 32]),
            false,
        )
    };
    match insert(8_210_266_876_800) {
        Err(WalletDbError::Decoding(message)) => {
            assert_eq!(message, "Invalid mined timestamp: 8210266876800")
        },
        other => panic!("unexpected {other:?}"),
    }
    // Wraps round to the year 1969.
    assert_eq!(insert(u64::MAX).expect("insert"), 1);
    assert_eq!(insert(8_210_266_876_799).expect("insert"), 2);
    // The first second of the calendar, and the one before it.
    assert_eq!(insert(-8_334_601_228_800_i64 as u64).expect("insert"), 3);
    assert!(matches!(insert(-8_334_601_228_801_i64 as u64), Err(WalletDbError::Decoding(_))));
    assert_eq!(db.outputs[0].mined_timestamp, at(-1));
}

#[test]
fn ids_run_out() {
    let mut db = WalletDb::new();
    insert_synthetic_output(&mut db, ACCOUNT, 1, 10, 1, true, OutputStatus::Unspent, 0);
    db.outputs[0].id = i64::MAX;
    let output = wallet_output(500, 0, 1);
    let result = insert_output(
        &mut db,
        ACCOUNT,
        &[9u8; 32],
        output.output_hash().to_vec(),
        &output,
        1,
        &FixedHash([3u8; 32]),
        0,
        None,
        None,
        FixedHash([0u8; 32]),
        false,
    );
    assert!(matches!(result, Err(WalletDbError::TableFull)));
    assert_eq!(db.outputs.len(), 1);
}

#[test]
fn unreadable_outputs_are_errors() {
    let mut db = WalletDb::new();
    insert_synthetic_output(&mut db, ACCOUNT, 1, 10, 1, true, OutputStatus::Unspent, 0);
    let hash = FixedHash([1u8; 32]);
    assert!(matches!(get_output_info_by_hash(&db, &hash), Err(WalletDbError::Json(_))));
    assert!(matches!(fetch_unspent_outputs(&db, ACCOUNT, 10, 10), Err(WalletDbError::Json(_))));
    insert_synthetic_output(&mut db, ACCOUNT, 2, 5, 1, true, OutputStatus::Unspent, 0);
    db.outputs[1].wallet_output_json = None;
    assert!(matches!(fetch_unspent_outputs(&db, ACCOUNT, 10, 10), Err(WalletDbError::NullColumn)));
    assert!(matches!(
        get_output_info_by_hash(&db, &FixedHash([2u8; 32])),
        Err(WalletDbError::NullColumn)
    ));
}

#[test]
fn unspent_outputs_are_listed_by_value() {
    let mut db = WalletDb::new();
    for (value, seed) in [(300, 1), (900, 2), (300, 3), (500, 4)] {
        let output = wallet_output(value, 0, seed);
        store(&mut db, &output, 100);
    }
    // Too shallow, immature and burned outputs are left out.
    store(&mut db, &wallet_output(10_000, 0, 5), 101);
    store(&mut db, &wallet_output(10_000, 151, 6), 100);
    let burned = store(&mut db, &wallet_output(10_000, 0, 7), 100);
    db.outputs[(burned - 1) as usize].is_burn = true;
    let listed = fetch_unspent_outputs(&db, ACCOUNT, 100, 150).expect("list");
    let ids: Vec<i64> = listed.iter().map(|o| o.id).collect();
    assert_eq!(ids, vec![2, 4, 1, 3]);
    assert_eq!(listed[0].value(), MicroMinotari(900));
    assert!(fetch_unspent_outputs(&db, ACCOUNT + 1, 100, 150).expect("list").is_empty());
}

#[test]
fn confirmed_outputs_wait_no_more() {
    let mut db = WalletDb::new();
    insert_synthetic_output(&mut db, ACCOUNT, 1, 10, 94, false, OutputStatus::Unspent, 0);
    insert_synthetic_output(&mut db, ACCOUNT, 2, 10, 95, false, OutputStatus::Unspent, 0);
    db.outputs[0].is_burn = true;
    let waiting = get_unconfirmed_outputs(&db, ACCOUNT, 100, 6).expect("list");
    assert_eq!(waiting.len(), 1);
    assert_eq!(waiting[0].output_hash, FixedHash([1u8; 32]));
    assert_eq!(waiting[0].is_burn, 1);
    assert_eq!(get_unconfirmed_outputs(&db, ACCOUNT, 100, 5).expect("list").len(), 2);
    assert_eq!(get_unconfirmed_outputs(&db, ACCOUNT, 3, 5).expect("list").len(), 0);

    mark_output_confirmed(&mut db, &FixedHash([1u8; 32]), 100, &[8u8; 32]).expect("confirm");
    // The other output still waits.
    let others = get_unconfirmed_outputs(&db, ACCOUNT, 100, 5).expect("list");
    assert_eq!(others.len(), 1);
    assert_eq!(others[0].output_hash, FixedHash([2u8; 32]));
    assert_eq!(db.outputs[0].confirmed_height, Some(100));
    assert_eq!(db.outputs[0].confirmed_hash, Some(vec![8u8; 32]));
    assert_eq!(db.outputs[1].confirmed_height, None);
    assert!(get_unconfirmed_outputs(&db, ACCOUNT, 100, 6).expect("list").is_empty());
}

#[test]
fn a_hash_column_that_is_too_short_is_an_error() {
    let mut db = WalletDb::new();
    insert_synthetic_output(&mut db, ACCOUNT, 1, 10, 1, false, OutputStatus::Unspent, 0);
    db.outputs[0].output_hash = vec![1u8; 31];
    assert!(matches!(get_unconfirmed_outputs(&db, ACCOUNT, 10, 0), Err(WalletDbError::ShortHash)));
}

#[test]
fn outputs_compare_by_row_transaction_and_worth() {
    let mut db = WalletDb::new();
    store(&mut db, &wallet_output(500, 0, 1), 100);
    store(&mut db, &wallet_output(500, 0, 2), 100);
    let listed = fetch_unspent_outputs(&db, ACCOUNT, 100, 100).expect("list");
    assert_eq!(listed[0].output, listed[1].output);
    assert_ne!(listed[0], listed[1]);
    assert_eq!(listed[0], listed[0].clone());
    assert_ne!(wallet_output(500, 0, 1), wallet_output(501, 0, 1));
}

#[test]
fn numbers_are_written_in_decimal() {
    assert_eq!(number_to_string(0), "0");
    assert_eq!(number_to_string(1_234_567_890), "1234567890");
    assert_eq!(number_to_string(u64::MAX), "18446744073709551615");
}

#[test]
fn an_output_is_handed_out_by_its_id() {
    let mut db = WalletDb::new();
    let output = wallet_output(500, 12, 42);
    let id = store(&mut db, &output, 100);
    update_output_status(&mut db, id, OutputStatus::Spent).expect("update");
    let row = get_output_by_id(&db, id).expect("look up").expect("found");
    assert_eq!(row.status, "SPENT");
    assert_eq!(OutputStatus::from_text(&row.status), Some(OutputStatus::Spent));
    assert_eq!(row.value, 500);
    assert_eq!(row.to_wallet_output().expect("decode").value(), MicroMinotari(500));
    assert!(get_output_by_id(&db, id + 1).expect("look up").is_none());

    let mut without = row.clone();
    assert_eq!(without.output_hash, row.output_hash);
    assert_eq!(without.payment_reference, row.payment_reference);
    // A status that is none of the wallet's is kept too.
    let mut odd = row.clone();
    odd.status = "ODD".to_string();
    assert_eq!(odd.clone().status, "ODD");
    without.wallet_output_json = None;
    match without.to_wallet_output() {
        Err(WalletDbError::Unexpected(message)) => assert_eq!(message, "Output JSON is null"),
        other => panic!("unexpected {other:?}"),
    }
    without.wallet_output_json = Some("not json".to_string());
    assert!(matches!(without.to_wallet_output(), Err(WalletDbError::Json(_))));
}

#[test]
fn unlocking_gives_an_output_back() {
    let mut db = WalletDb::new();
    let first = store(&mut db, &wallet_output(500, 0, 1), 100);
    let second = store(&mut db, &wallet_output(700, 0, 2), 100);
    lock_output(&mut db, first, "request", at(50)).expect("lock");
    // The second request does not get what the first one holds.
    lock_output(&mut db, first, "other", at(60)).expect("lock");
    assert_eq!(db.outputs[0].status, OutputStatus::Locked);
    assert_eq!(db.outputs[0].locked_by_request_id.as_deref(), Some("request"));
    assert_eq!(db.outputs[0].locked_at, Some(at(50)));
    let free = fetch_unspent_outputs(&db, ACCOUNT, 100, 100).expect("list");
    assert_eq!(free.len(), 1);
    assert_eq!(free[0].id, second);
    let held = fetch_outputs_by_lock_request_id(&db, "request").expect("list");
    assert_eq!(held.len(), 1);
    assert_eq!(held[0].id, first);
    assert!(fetch_outputs_by_lock_request_id(&db, "other").expect("list").is_empty());

    unlock_outputs_for_request(&mut db, "other").expect("unlock");
    assert_eq!(db.outputs[0].status, OutputStatus::Locked);
    unlock_outputs_for_request(&mut db, "request").expect("unlock");
    assert_eq!(db.outputs[0].status, OutputStatus::Unspent);
    assert_eq!(db.outputs[0].locked_by_request_id, None);
    assert_eq!(db.outputs[0].locked_at, None);
    assert_eq!(fetch_unspent_outputs(&db, ACCOUNT, 100, 100).expect("list").len(), 2);
}

#[test]
fn unlocking_leaves_spent_outputs_alone() {
    let mut db = WalletDb::new();
    let id = store(&mut db, &wallet_output(500, 0, 1), 100);
    lock_output(&mut db, id, "request", at(50)).expect("lock");
    update_output_status(&mut db, id, OutputStatus::Spent).expect("update");
    unlock_outputs_for_request(&mut db, "request").expect("unlock");
    assert_eq!(db.outputs[0].status, OutputStatus::Spent);
    assert_eq!(db.outputs[0].locked_by_request_id.as_deref(), Some("request"));
}

#[test]
fn a_reorganisation_takes_credits_back() {
    let mut db = WalletDb::new();
    let low = store(&mut db, &wallet_output(100, 0, 1), 99);
    let high = store(&mut db, &wallet_output(200, 0, 2), 100);
    let unrecorded = store(&mut db, &wallet_output(300, 0, 3), 101);
    assert_eq!(insert_balance_change(&mut db, credit(low, 100)).expect("insert"), 1);
    assert_eq!(insert_balance_change(&mut db, credit(high, 200)).expect("insert"), 2);
    assert_eq!(get_balance_change_id_by_output(&db, high), Some(2));
    lock_output(&mut db, high, "request", at(50)).expect("lock");

    let affected = get_active_outputs_from_height(&db, ACCOUNT, 100).expect("list");
    assert_eq!(affected.len(), 2);
    assert_eq!(affected[0].mined_in_block_height, 100);
    assert_eq!(affected[0].locked_by_request_id.as_deref(), Some("request"));
    assert_eq!(affected[1].output_hash[0], 3);

    soft_delete_outputs_at(&mut db, ACCOUNT, 100, at(77)).expect("delete");
    assert_eq!(db.outputs[0].deleted_at, None);
    assert_eq!(db.outputs[1].deleted_at, Some(at(77)));
    assert_eq!(db.outputs[1].deleted_in_block_height, Some(100));
    assert_eq!(db.outputs[1].payment_reference, None);
    assert_eq!(db.outputs[2].deleted_at, Some(at(77)));
    assert!(get_active_outputs_from_height(&db, ACCOUNT, 100).expect("list").is_empty());

    assert_eq!(db.balance_changes.len(), 4);
    assert!(!db.balance_changes[0].change.is_reversed);
    assert!(db.balance_changes[1].change.is_reversed);
    let reversal = &db.balance_changes[2];
    assert_eq!(reversal.id, 3);
    assert!(reversal.change.is_reversal);
    assert_eq!(reversal.change.caused_by_output_id, Some(high));
    assert_eq!(reversal.change.reversal_of_balance_change_id, Some(2));
    assert_eq!(reversal.change.balance_debit, MicroMinotari(200));
    assert_eq!(reversal.change.balance_credit, MicroMinotari(0));
    assert_eq!(reversal.change.effective_date, at(77));
    assert_eq!(reversal.change.effective_height, 100);
    assert_eq!(
        reversal.change.description,
        "Reversal: Output found in blockchain scan (reorg at height 100)"
    );
    let other = &db.balance_changes[3];
    assert_eq!(other.change.caused_by_output_id, Some(unrecorded));
    assert_eq!(other.change.reversal_of_balance_change_id, None);
    assert_eq!(other.change.balance_debit, MicroMinotari(300));

    // What was removed is gone.
    let gone = wallet_output(200, 0, 2).output_hash();
    assert!(get_output_info_by_hash(&db, &gone).expect("look up").is_none());
    assert!(get_output_info_by_hash_for_account(&db, ACCOUNT, &gone).expect("look up").is_none());
    assert_eq!(fetch_unspent_outputs(&db, ACCOUNT, 1_000, 1_000).expect("list").len(), 1);
    assert_eq!(get_total_unspent_balance(&db, ACCOUNT, 1_000).expect("total"), 100);
    assert_eq!(get_unconfirmed_outputs(&db, ACCOUNT, 1_000, 0).expect("list").len(), 1);
    let totals = get_output_totals_for_account(&db, ACCOUNT, 1_000).expect("totals");
    assert_eq!(totals.unconfirmed, MicroMinotari(100));
    assert_eq!(totals.locked, MicroMinotari(0));

    // Once more changes nothing.
    soft_delete_outputs_from_height(&mut db, ACCOUNT, 100).expect("delete");
    assert_eq!(db.balance_changes.len(), 4);
    assert_eq!(db.outputs[1].deleted_at, Some(at(77)));
}

#[test]
fn a_reorganisation_needs_room_in_the_ledger() {
    let mut db = WalletDb::new();
    store(&mut db, &wallet_output(100, 0, 1), 99);
    store(&mut db, &wallet_output(200, 0, 2), 100);
    db.balance_changes.push(BalanceChangeRow { id: i64::MAX - 1, change: credit(1, 100) });
    assert!(matches!(
        soft_delete_outputs_from_height(&mut db, ACCOUNT, 99),
        Err(WalletDbError::TableFull)
    ));
    assert_eq!(db.balance_changes.len(), 1);
    assert_eq!(db.outputs[0].deleted_at, None);
    soft_delete_outputs_from_height(&mut db, ACCOUNT, 100).expect("delete");
    assert_eq!(db.balance_changes[1].id, i64::MAX);
}

#[test]
fn tables_are_taken_in_the_order_of_their_ids() {
    let mut db = WalletDb::new();
    insert_synthetic_output(&mut db, ACCOUNT, 1, 10, 1, true, OutputStatus::Unspent, 0);
    insert_synthetic_output(&mut db, ACCOUNT, 2, 10, 1, true, OutputStatus::Unspent, 0);
    let WalletDb { outputs, balance_changes, pending_transactions, scanned_tip_blocks } = db;
    let db = WalletDb::from_tables(outputs, balance_changes, pending_transactions, scanned_tip_blocks)
        .expect("rising ids");
    let WalletDb { mut outputs, balance_changes, pending_transactions, scanned_tip_blocks } = db;
    outputs.reverse();
    assert!(WalletDb::from_tables(outputs, balance_changes, pending_transactions, scanned_tip_blocks)
        .is_none());
}
