//! Locking funds for transactions.
use minotari::db::error::WalletDbError;
use minotari::db::outputs::{
    get_output_totals_for_account, get_total_unspent_balance, insert_output, unlock_outputs_for_request,
};
use minotari::db::scanned_tip_blocks::{get_tip_height, insert_scanned_tip_block};
use minotari::db::tables::WalletDb;
use minotari::models::{FixedHash, MicroMinotari, OutputStatus, UtcTime};
use minotari::transactions::fund_locker::{FundLocker, LockError};
use minotari::transactions::input_selector::{
    estimate_fees, select_found, InputSelector, SelectionError,
};
use minotari::wallet_output::WalletOutput;
use std::collections::HashSet;
use tari_common_types::types::{ComAndPubSignature, CompressedPublicKey};
use tari_script::{ExecutionStack, TariScript};
use tari_transaction_components::key_manager::TariKeyId;
use tari_transaction_components::transaction_components::covenants::Covenant;
use tari_transaction_components::transaction_components::{
    EncryptedData, MemoField, OutputFeatures, TransactionOutputVersion,
};

const ACCOUNT: i64 = 1;

/// A wallet output with the given value and first byte of its hash.
fn test_wallet_output(value: u64, hash_seed: u8) -> WalletOutput {
    let mut hash = [0u8; 32];
    hash[0] = hash_seed;
    let output = tari_transaction_components::transaction_components::WalletOutput::new_from_parts(
        TransactionOutputVersion::default(),
        value.into(),
        TariKeyId::default(),
        OutputFeatures::default(),
        TariScript::default(),
        ExecutionStack::default(),
        TariKeyId::default(),
        CompressedPublicKey::default(),
        ComAndPubSignature::default(),
        0,
        Covenant::default(),
        EncryptedData::default(),
        0.into(),
        None,
        MemoField::new_empty(),
        hash.into(),
        Default::default(),
    );
    let json = serde_json::to_string(&output).expect("serialize a wallet output");
    WalletOutput::from_json(&json).expect("decode a wallet output")
}

fn insert_test_output(db: &mut WalletDb, account_id: i64, seed: u8, value: u64, mined_height: u64) {
    let output = test_wallet_output(value, seed);
    insert_output(
        db,
        account_id,
        &[9u8; 32],
        vec![seed; 32],
        &output,
        mined_height,
        &FixedHash([seed; 32]),
        1_700_000_000,
        None,
        None,
        FixedHash([0u8; 32]),
        false,
    )
    .expect("insert test output");
}

/// A wallet with outputs of one, two, three and more times the given value at height 100, scanned
/// up to height 200.
fn setup_test_env(output_count: usize, value_per_output: u64) -> (WalletDb, i64) {
    let mut db = WalletDb::new();
    insert_scanned_tip_block(&mut db, ACCOUNT, 200, FixedHash([0u8; 32]));
    for i in 0..output_count {
        insert_test_output(
            &mut db,
            ACCOUNT,
            (i + 1) as u8,
            (i as u64 + 1) * value_per_output,
            100,
        );
    }
    (db, ACCOUNT)
}

fn hashes(utxos: &[WalletOutput]) -> HashSet<FixedHash> {
    utxos.iter().map(|u| u.output_hash()).collect()
}

// The locker answers one request at a time, so requests that arrive together are answered one after
// the other.

#[test]
fn concurrent_lock_calls_select_disjoint_utxos() {
    let (db, account_id) = setup_test_env(5, 500_000);
    let mut locker = FundLocker::new(db);
    let mut lock = || {
        locker.lock(
            account_id,
            MicroMinotari(100_000),
            1,
            MicroMinotari(0),
            Some(1000),
            None,
            3600,
            100,
        )
    };
    let result_a = lock().expect("lock A succeeded");
    let result_b = lock().expect("lock B succeeded");

    assert!(!result_a.utxos.is_empty(), "A got at least one UTXO");
    assert!(!result_b.utxos.is_empty(), "B got at least one UTXO");

    let hashes_a = hashes(&result_a.utxos);
    let hashes_b = hashes(&result_b.utxos);
    let intersection: HashSet<_> = hashes_a.intersection(&hashes_b).copied().collect();
    assert!(
        intersection.is_empty(),
        "Concurrent lock calls selected overlapping UTXOs: {intersection:?}",
    );
}

#[test]
fn idempotency_key_returns_same_result_concurrently() {
    let (db, account_id) = setup_test_env(3, 1_000_000);
    let mut locker = FundLocker::new(db);
    let mut lock = || {
        locker.lock(
            account_id,
            MicroMinotari(200_000),
            1,
            MicroMinotari(0),
            Some(1000),
            Some("concurrent-idempotency-key".to_string()),
            3600,
            100,
        )
    };
    let result_a = lock().expect("lock A succeeded");
    let result_b = lock().expect("lock B succeeded");

    assert_eq!(
        hashes(&result_a.utxos),
        hashes(&result_b.utxos),
        "Idempotent concurrent calls must return identical UTXO sets",
    );
    assert_eq!(result_a.total_value, result_b.total_value);
    assert_eq!(result_a.requires_change_output, result_b.requires_change_output);
    assert_eq!(result_a.fee_without_change, result_b.fee_without_change);
    assert_eq!(result_a.fee_with_change, result_b.fee_with_change);
    assert_eq!(locker.db.pending_transactions.len(), 1);
}

#[test]
fn mutex_serialises_lock_calls() {
    let (db_a, account_a) = setup_test_env(3, 1_000_000);
    let (db_b, account_b) = setup_test_env(3, 1_000_000);
    let r_a = FundLocker::new(db_a)
        .lock(account_a, MicroMinotari(200_000), 1, MicroMinotari(0), Some(1000), None, 3600, 100)
        .expect("lock A ok");
    let r_b = FundLocker::new(db_b)
        .lock(account_b, MicroMinotari(200_000), 1, MicroMinotari(0), Some(1000), None, 3600, 100)
        .expect("lock B ok");
    assert!(!r_a.utxos.is_empty(), "A got UTXOs");
    assert!(!r_b.utxos.is_empty(), "B got UTXOs");
}

#[test]
fn fees_follow_the_weights() {
    let fees = estimate_fees(2, MicroMinotari(5), 64);
    assert_eq!(fees.output_fee, MicroMinotari(5 * (10 + 2 * 53 + 8)));
    assert_eq!(fees.change_fee, MicroMinotari(5 * (53 + 4)));
    assert_eq!(fees.fee_per_input, MicroMinotari(5 * 8));
    let most = estimate_fees(usize::MAX, MicroMinotari(u64::MAX), 64);
    assert_eq!(most.output_fee, MicroMinotari(u64::MAX));
}

#[test]
fn the_size_of_a_standard_output_is_the_default() {
    let (db, account_id) = setup_test_env(3, 1_000_000);
    let selector = InputSelector::new(account_id, 100);
    let by_default = selector
        .fetch_unspent_outputs(&db, MicroMinotari(200_000), 1, MicroMinotari(5), None)
        .expect("selection");
    let by_size = selector
        .fetch_unspent_outputs(&db, MicroMinotari(200_000), 1, MicroMinotari(5), Some(64))
        .expect("selection");
    assert_eq!(by_default.fee_without_change, by_size.fee_without_change);
    assert_eq!(by_default.fee_without_change, MicroMinotari(5 * (10 + 53 + 4 + 8)));
    assert_eq!(by_default.fee_with_change, MicroMinotari(5 * (10 + 53 + 4 + 8 + 53 + 4)));
    assert!(by_default.requires_change_output);
}

#[test]
fn a_selection_pays_for_amount_and_fee() {
    let (db, account_id) = setup_test_env(4, 1_000);
    let selector = InputSelector::new(account_id, 100);
    // One output pays exactly: no change.
    let fee = 10 + 53 + 4 + 8;
    let exact = selector
        .fetch_unspent_outputs(&db, MicroMinotari(2_000 - fee), 1, MicroMinotari(1), Some(64))
        .expect("selection");
    assert_eq!(exact.utxos.len(), 1);
    assert_eq!(exact.total_value, MicroMinotari(2_000));
    assert_eq!(exact.fee_without_change, MicroMinotari(fee));
    assert!(!exact.requires_change_output);
    // All outputs together pay for this.
    let most = 10_000 - (10 + 53 + 4 + 4 * 8);
    let all = selector
        .fetch_unspent_outputs(&db, MicroMinotari(most), 1, MicroMinotari(1), Some(64))
        .expect("selection");
    assert_eq!(all.utxos.len(), 4);
    assert_eq!(all.total_value, MicroMinotari(10_000));
    assert!(matches!(
        selector.fetch_unspent_outputs(&db, MicroMinotari(most + 1), 1, MicroMinotari(1), Some(64)),
        Err(SelectionError::InsufficientFunds)
    ));
    assert!(matches!(
        selector.fetch_unspent_outputs(&db, MicroMinotari(u64::MAX), 1, MicroMinotari(1), Some(64)),
        Err(SelectionError::InsufficientFunds)
    ));
}

#[test]
fn a_search_result_is_matched_with_outputs() {
    let (db, account_id) = setup_test_env(3, 1_000);
    let candidates =
        minotari::db::outputs::fetch_unspent_outputs(&db, account_id, 100, 200).expect("list");
    let selection = select_found(
        &candidates,
        MicroMinotari(3_500),
        MicroMinotari(57),
        Some((vec![3_000, 1_000], 4_000, 3_600, true)),
    )
    .expect("selection");
    let ids: Vec<i64> = selection.utxos.iter().map(|o| o.id).collect();
    assert_eq!(ids, vec![3, 1]);
    assert_eq!(selection.total_value, MicroMinotari(4_000));
    assert_eq!(selection.fee_without_change, MicroMinotari(100));
    assert_eq!(selection.fee_with_change, MicroMinotari(157));
    assert!(selection.requires_change_output);
    assert!(matches!(
        select_found(&candidates, MicroMinotari(1), MicroMinotari(1), None),
        Err(SelectionError::InsufficientFunds)
    ));
}

#[test]
fn a_lock_is_recorded_until_it_expires() {
    let (db, account_id) = setup_test_env(2, 1_000);
    let mut locker = FundLocker::new(db);
    let now = UtcTime { seconds: 1_700_000_000, nanos: 250 };
    let funds = locker
        .lock_at(
            account_id,
            MicroMinotari(1_500),
            1,
            MicroMinotari(0),
            Some(64),
            None,
            300,
            100,
            now,
            "new key".to_string(),
            "request".to_string(),
        )
        .expect("lock");
    assert_eq!(funds.utxos.len(), 1);
    assert_eq!(funds.total_value, MicroMinotari(2_000));
    assert!(funds.requires_change_output);
    let pending = &locker.db.pending_transactions[0];
    assert_eq!(pending.id, "request");
    assert_eq!(pending.idempotency_key, "new key");
    assert_eq!(pending.total_value, MicroMinotari(2_000));
    assert_eq!(pending.expires_at, UtcTime { seconds: 1_700_000_300, nanos: 250 });
    let row = &locker.db.outputs[1];
    assert_eq!(row.status, OutputStatus::Locked);
    assert_eq!(row.locked_by_request_id.as_deref(), Some("request"));
    assert_eq!(row.locked_at, Some(UtcTime { seconds: 1_700_000_300, nanos: 250 }));
    assert_eq!(locker.db.outputs[0].status, OutputStatus::Unspent);

    // The funds are set aside, not lost, and come back.
    let totals = get_output_totals_for_account(&locker.db, account_id, 200).expect("totals");
    assert_eq!(totals.locked, MicroMinotari(2_000));
    assert_eq!(totals.unconfirmed, MicroMinotari(1_000));
    assert_eq!(get_total_unspent_balance(&locker.db, account_id, 200).expect("total"), 1_000);
    unlock_outputs_for_request(&mut locker.db, "request").expect("unlock");
    assert_eq!(get_total_unspent_balance(&locker.db, account_id, 200).expect("total"), 3_000);
}

#[test]
fn later_locks_keep_earlier_funds() {
    let (db, account_id) = setup_test_env(5, 1_000);
    let mut locker = FundLocker::new(db);
    let mut lock = |key: &str, amount: u64| {
        locker
            .lock(
                account_id,
                MicroMinotari(amount),
                1,
                MicroMinotari(0),
                Some(64),
                Some(key.to_string()),
                300,
                100,
            )
            .expect("lock")
    };
    let first = lock("first", 7_000);
    let second = lock("second", 1_000);
    // The key decides, whatever else the request asks for.
    let first_again = lock("first", 1);
    let second_again = lock("second", 1_000_000);
    assert_eq!(hashes(&first.utxos), hashes(&first_again.utxos));
    assert_eq!(first.total_value, first_again.total_value);
    assert_eq!(hashes(&second.utxos), hashes(&second_again.utxos));
    assert!(hashes(&first.utxos).is_disjoint(&hashes(&second.utxos)));
    // An answer from an earlier lock shares nothing with the funds of the other key either.
    assert!(hashes(&first_again.utxos).is_disjoint(&hashes(&second.utxos)));
    assert!(hashes(&first_again.utxos).is_disjoint(&hashes(&second_again.utxos)));
    assert_eq!(locker.db.pending_transactions.len(), 2);
}

#[test]
fn a_key_belongs_to_one_account() {
    let (mut db, account_id) = setup_test_env(2, 1_000);
    insert_scanned_tip_block(&mut db, account_id + 1, 200, FixedHash([0u8; 32]));
    insert_test_output(&mut db, account_id + 1, 9, 5_000, 100);
    let mut locker = FundLocker::new(db);
    let mut lock = |account: i64| {
        locker
            .lock(
                account,
                MicroMinotari(100),
                1,
                MicroMinotari(0),
                Some(64),
                Some("key".to_string()),
                300,
                100,
            )
            .expect("lock")
    };
    let ours = lock(account_id);
    let theirs = lock(account_id + 1);
    assert!(hashes(&ours.utxos).is_disjoint(&hashes(&theirs.utxos)));
    assert_eq!(theirs.total_value, MicroMinotari(5_000));
}

#[test]
fn a_request_without_a_key_gets_random_ids() {
    let (db, account_id) = setup_test_env(2, 1_000);
    let mut locker = FundLocker::new(db);
    locker
        .lock(account_id, MicroMinotari(100), 1, MicroMinotari(0), Some(64), None, 300, 100)
        .expect("lock");
    let pending = &locker.db.pending_transactions[0];
    for id in [&pending.id, &pending.idempotency_key] {
        assert_eq!(id.len(), 36);
        for (i, c) in id.chars().enumerate() {
            if [8, 13, 18, 23].contains(&i) {
                assert_eq!(c, '-');
            } else {
                assert!(c.is_ascii_digit() || ('a'..='f').contains(&c));
            }
        }
        assert_eq!(id.chars().nth(14), Some('4'));
    }
    assert_ne!(pending.id, pending.idempotency_key);
}

#[test]
fn a_refused_request_changes_nothing() {
    let (db, account_id) = setup_test_env(2, 1_000);
    let mut locker = FundLocker::new(db);
    let refused =
        locker.lock(account_id, MicroMinotari(3_001), 1, MicroMinotari(0), Some(64), None, 300, 100);
    assert!(matches!(refused, Err(LockError::Selection(SelectionError::InsufficientFunds))));
    let expired = locker.lock(
        account_id,
        MicroMinotari(100),
        1,
        MicroMinotari(0),
        Some(64),
        None,
        i64::MAX as u64,
        100,
    );
    assert!(matches!(expired, Err(LockError::ExpiryOutOfRange)));
    // The outputs lie less deep than this window asks for.
    let shallow =
        locker.lock(account_id, MicroMinotari(100), 1, MicroMinotari(0), Some(64), None, 300, 101);
    assert!(matches!(shallow, Err(LockError::Selection(SelectionError::InsufficientFunds))));
    assert!(locker.db.pending_transactions.is_empty());
    assert!(locker.db.outputs.iter().all(|row| row.status == OutputStatus::Unspent));
}

#[test]
fn unreadable_funds_are_errors() {
    let (db, account_id) = setup_test_env(1, 1_000);
    let mut locker = FundLocker::new(db);
    locker.db.outputs[0].wallet_output_json = Some("{}".to_string());
    let unreadable =
        locker.lock(account_id, MicroMinotari(100), 1, MicroMinotari(0), Some(64), None, 300, 100);
    assert!(matches!(
        unreadable,
        Err(LockError::Selection(SelectionError::Db(WalletDbError::Json(_))))
    ));

    let (db, account_id) = setup_test_env(1, 1_000);
    let mut locker = FundLocker::new(db);
    let key = Some("key".to_string());
    locker
        .lock(account_id, MicroMinotari(100), 1, MicroMinotari(0), Some(64), key.clone(), 300, 100)
        .expect("lock");
    locker.db.outputs[0].wallet_output_json = None;
    let again =
        locker.lock(account_id, MicroMinotari(100), 1, MicroMinotari(0), Some(64), key, 300, 100);
    assert!(matches!(again, Err(LockError::Db(WalletDbError::NullColumn))));
}

#[test]
fn the_tip_is_the_greatest_scanned_height() {
    let mut db = WalletDb::new();
    assert_eq!(get_tip_height(&db, ACCOUNT), 0);
    insert_scanned_tip_block(&mut db, ACCOUNT, 12, FixedHash([0u8; 32]));
    insert_scanned_tip_block(&mut db, ACCOUNT, 10, FixedHash([0u8; 32]));
    insert_scanned_tip_block(&mut db, ACCOUNT + 1, 99, FixedHash([0u8; 32]));
    assert_eq!(get_tip_height(&db, ACCOUNT), 12);
}
