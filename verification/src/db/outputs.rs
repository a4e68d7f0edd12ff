//! The outputs of the wallet: storing them, following them through confirmation, spending and
//! chain reorganisations, and asking for them.
use crate::bindings::{
    decoded_wallet_output, deterministic_tx_id, hex_encode, hex_text, new_deterministic_tx_id,
    utc_from_timestamp, utc_now,
};
use crate::db::balance_changes::{
    get_balance_change_id_by_output, insert_balance_change, lemma_original_stands,
    mark_balance_change_as_reversed, marked_reversed, original_change,
};
use crate::db::error::{WalletDbError, WalletDbResult};
use crate::db::query::{
    by_value_descending, order_by_value, rows_at, select_rows, sum_fits, sum_values, update_rows,
    value_sum, RowUpdate,
};
use crate::db::tables::{
    change_ids_rise, next_change_id, next_output_id, output_records, BalanceChange, ChangeRecord,
    OutputRecord, OutputRow, WalletDb, WalletState,
};
use crate::models::{
    as_signed, as_unsigned, bytes, bytes_equal, copy_bytes, copy_slice, copy_text, decimal,
    leading_hash, number_to_string, representable, saturating_sum, status_text, text, text_is,
    to_signed, to_unsigned, FixedHash, MicroMinotari, OutputStatus, TxId, UtcTime, HASH_LENGTH,
};
use crate::wallet_output::{wallet_output_of, WalletOutput, WalletOutputFacts};
use vstd::prelude::*;

verus! {

/// An output of the table together with the wallet output that it stores.
#[derive(Debug)]
pub struct DbWalletOutput {
    pub id: i64,
    pub tx_id: TxId,
    pub output: WalletOutput,
}

/// What a [`DbWalletOutput`] says.
#[verifier::ext_equal]
pub ghost struct DbWalletOutputFacts {
    pub id: i64,
    pub tx_id: TxId,
    pub output: WalletOutputFacts,
}

impl View for DbWalletOutput {
    type V = DbWalletOutputFacts;

    open spec fn view(&self) -> DbWalletOutputFacts {
        DbWalletOutputFacts { id: self.id, tx_id: self.tx_id, output: self.output@ }
    }
}

impl DbWalletOutput {
    pub fn value(&self) -> (r: MicroMinotari)
        ensures
            r == self@.output.value,
    {
        self.output.value()
    }
}

/// Two outputs are the same where their rows and transactions are, and they are worth the same.
impl PartialEq for DbWalletOutput {
    fn eq(&self, other: &Self) -> (r: bool) {
        self.id == other.id && self.tx_id == other.tx_id && self.output == other.output
    }
}

impl vstd::std_specs::cmp::PartialEqSpecImpl for DbWalletOutput {
    open spec fn obeys_eq_spec() -> bool {
        true
    }

    open spec fn eq_spec(&self, other: &Self) -> bool {
        self.id == other.id && self.tx_id == other.tx_id && self.output.value
            == other.output.value
    }
}

impl Eq for DbWalletOutput {

}

impl Clone for DbWalletOutput {
    fn clone(&self) -> (r: Self)
        ensures
            r@ == self@,
    {
        DbWalletOutput { id: self.id, tx_id: self.tx_id, output: self.output.clone() }
    }
}

/// Whether the wallet output that a row stores can be read.
pub open spec fn decodable(r: OutputRecord) -> bool {
    r.wallet_output_json is Some && decoded_wallet_output(r.wallet_output_json->0) is Some
}

/// What a row stores, where it can be read.
pub open spec fn stored_output(r: OutputRecord) -> DbWalletOutputFacts {
    DbWalletOutputFacts {
        id: r.id,
        tx_id: TxId(as_unsigned(r.tx_id)),
        output: wallet_output_of(r.wallet_output_json->0),
    }
}

/// What reading the wallet output of one row comes to.
pub open spec fn row_read(r: OutputRecord, result: WalletDbResult<DbWalletOutput>) -> bool {
    match result {
        Ok(output) => decodable(r) && output@ == stored_output(r),
        Err(WalletDbError::NullColumn) => r.wallet_output_json is None,
        Err(WalletDbError::Json(_)) => r.wallet_output_json is Some && !decodable(r),
        Err(_) => false,
    }
}

/// Reads the wallet output that a row stores.
fn read_row(row: &OutputRow) -> (r: WalletDbResult<DbWalletOutput>)
    ensures
        row_read(row@, r),
{
    match &row.wallet_output_json {
        Some(json) => match WalletOutput::from_json(json.as_str()) {
            Ok(output) => Ok(
                DbWalletOutput { id: row.id, tx_id: TxId(to_unsigned(row.tx_id)), output },
            ),
            Err(e) => Err(e),
        },
        None => Err(WalletDbError::NullColumn),
    }
}

/// The rows of live outputs with the given hash.
pub open spec fn has_hash(hash: Seq<u8>) -> spec_fn(OutputRecord) -> bool {
    |r: OutputRecord| r.output_hash == hash && r.deleted_at is None
}

/// What a look-up comes to: nothing where no row was found, else the first of them.
pub open spec fn first_row_read(
    hits: Seq<OutputRecord>,
    result: WalletDbResult<Option<(i64, TxId, WalletOutput)>>,
) -> bool {
    if hits.len() == 0 {
        result is Ok && result->Ok_0 is None
    } else {
        match result {
            Ok(Some((id, tx_id, output))) => {
                &&& decodable(hits[0])
                &&& stored_output(hits[0]) == (DbWalletOutputFacts { id, tx_id, output: output@ })
            },
            Ok(None) => false,
            Err(WalletDbError::NullColumn) => hits[0].wallet_output_json is None,
            Err(WalletDbError::Json(_)) => hits[0].wallet_output_json is Some && !decodable(
                hits[0],
            ),
            Err(_) => false,
        }
    }
}

/// What looking a live output up by its hash comes to.
pub open spec fn found_by_hash(
    rows: Seq<OutputRecord>,
    hash: Seq<u8>,
    result: WalletDbResult<Option<(i64, TxId, WalletOutput)>>,
) -> bool {
    first_row_read(rows.filter(has_hash(hash)), result)
}

/// Finds the live output with the given hash: its id, its transaction id and the wallet output. Of
/// several, the one with the smallest id.
pub fn get_output_info_by_hash(db: &WalletDb, output_hash: &FixedHash) -> (r: WalletDbResult<
    Option<(i64, TxId, WalletOutput)>,
>)
    ensures
        found_by_hash(db@.outputs, output_hash@, r),
{
    let test = |row: &OutputRow| -> (b: bool)
        ensures
            b == has_hash(output_hash@)(row@),
        { row.deleted_at.is_none() && bytes_equal(row.output_hash.as_slice(), output_hash.as_slice()) };
    let found = select_rows(&db.outputs, test, Ghost(has_hash(output_hash@)));
    if found.len() == 0 {
        return Ok(None);
    }
    match read_row(&db.outputs[found[0]]) {
        Ok(o) => Ok(Some((o.id, o.tx_id, o.output))),
        Err(e) => Err(e),
    }
}

/// The rows of an account's live outputs with the given hash.
pub open spec fn has_account_and_hash(account_id: i64, hash: Seq<u8>) -> spec_fn(
    OutputRecord,
) -> bool {
    |r: OutputRecord| r.account_id == account_id && r.output_hash == hash && r.deleted_at is None
}

/// What looking a live output of an account up by its hash comes to.
pub open spec fn found_by_account_and_hash(
    rows: Seq<OutputRecord>,
    account_id: i64,
    hash: Seq<u8>,
    result: WalletDbResult<Option<(i64, TxId, WalletOutput)>>,
) -> bool {
    first_row_read(rows.filter(has_account_and_hash(account_id, hash)), result)
}

/// Finds the account's live output with the given hash: its id, its transaction id and the wallet
/// output. Of several, the one with the smallest id.
pub fn get_output_info_by_hash_for_account(
    db: &WalletDb,
    account_id: i64,
    output_hash: &FixedHash,
) -> (r: WalletDbResult<Option<(i64, TxId, WalletOutput)>>)
    ensures
        found_by_account_and_hash(db@.outputs, account_id, output_hash@, r),
{
    let test = |row: &OutputRow| -> (b: bool)
        ensures
            b == has_account_and_hash(account_id, output_hash@)(row@),
        {
            row.account_id == account_id && row.deleted_at.is_none() && bytes_equal(
                row.output_hash.as_slice(),
                output_hash.as_slice(),
            )
        };
    let found = select_rows(
        &db.outputs,
        test,
        Ghost(has_account_and_hash(account_id, output_hash@)),
    );
    if found.len() == 0 {
        return Ok(None);
    }
    match read_row(&db.outputs[found[0]]) {
        Ok(o) => Ok(Some((o.id, o.tx_id, o.output))),
        Err(e) => Err(e),
    }
}

/// What a list of outputs says.
pub open spec fn output_facts(outputs: Seq<DbWalletOutput>) -> Seq<DbWalletOutputFacts> {
    outputs.map_values(|o: DbWalletOutput| o@)
}

/// What reading the wallet outputs of several rows comes to: all of them in order, or an error
/// where one of them cannot be read. A row without a wallet output is found before any of the texts
/// is decoded.
pub open spec fn rows_read(
    rows: Seq<OutputRecord>,
    result: WalletDbResult<Vec<DbWalletOutput>>,
) -> bool {
    match result {
        Ok(outputs) => {
            &&& forall|k: int| 0 <= k < rows.len() ==> decodable(#[trigger] rows[k])
            &&& output_facts(outputs@) == rows.map_values(|r: OutputRecord| stored_output(r))
        },
        Err(WalletDbError::NullColumn) => exists|k: int|
            0 <= k < rows.len() && (#[trigger] rows[k]).wallet_output_json is None,
        Err(WalletDbError::Json(_)) => {
            &&& forall|k: int|
                0 <= k < rows.len() ==> (#[trigger] rows[k]).wallet_output_json is Some
            &&& exists|k: int| 0 <= k < rows.len() && !decodable(#[trigger] rows[k])
        },
        Err(_) => false,
    }
}

/// Reads the wallet outputs of the rows at the given places.
fn read_rows(rows: &Vec<OutputRow>, found: &Vec<usize>) -> (r: WalletDbResult<Vec<DbWalletOutput>>)
    requires
        forall|k: int| 0 <= k < found@.len() ==> (#[trigger] found@[k]) < rows@.len(),
    ensures
        rows_read(rows_at(rows@, found@), r),
{
    let ghost picked = rows_at(rows@, found@);
    let mut k: usize = 0;
    while k < found.len()
        invariant
            k <= found@.len(),
            picked == rows_at(rows@, found@),
            forall|k: int| 0 <= k < found@.len() ==> (#[trigger] found@[k]) < rows@.len(),
            forall|l: int| 0 <= l < k ==> (#[trigger] picked[l]).wallet_output_json is Some,
        decreases found.len() - k,
    {
        if rows[found[k]].wallet_output_json.is_none() {
            assert(picked[k as int].wallet_output_json is None);
            return Err(WalletDbError::NullColumn);
        }
        k = k + 1;
    }
    let mut outputs: Vec<DbWalletOutput> = Vec::new();
    let mut l: usize = 0;
    while l < found.len()
        invariant
            l <= found@.len(),
            picked == rows_at(rows@, found@),
            forall|k: int| 0 <= k < found@.len() ==> (#[trigger] found@[k]) < rows@.len(),
            forall|j: int|
                0 <= j < picked.len() ==> (#[trigger] picked[j]).wallet_output_json is Some,
            outputs@.len() == l,
            forall|j: int| 0 <= j < l ==> decodable(#[trigger] picked[j]),
            forall|j: int| 0 <= j < l ==> (#[trigger] outputs@[j])@ == stored_output(picked[j]),
        decreases found.len() - l,
    {
        match read_row(&rows[found[l]]) {
            Ok(output) => {
                assert(decodable(picked[l as int]));
                outputs.push(output);
            },
            Err(e) => {
                assert(!decodable(picked[l as int]));
                return Err(e);
            },
        }
        l = l + 1;
    }
    assert(output_facts(outputs@) =~= picked.map_values(|r: OutputRecord| stored_output(r)));
    Ok(outputs)
}

/// Takes the wallet outputs out of a list of outputs.
pub fn take_wallet_outputs(outputs: Vec<DbWalletOutput>) -> (r: Vec<WalletOutput>)
    ensures
        r@.map_values(|o: WalletOutput| o@) == output_facts(outputs@).map_values(
            |f: DbWalletOutputFacts| f.output,
        ),
{
    let mut taken: Vec<WalletOutput> = Vec::new();
    let mut k: usize = 0;
    while k < outputs.len()
        invariant
            k <= outputs@.len(),
            taken@.len() == k,
            forall|j: int| 0 <= j < k ==> (#[trigger] taken@[j])@ == outputs@[j]@.output,
        decreases outputs.len() - k,
    {
        taken.push(outputs[k].output.clone());
        k = k + 1;
    }
    assert(taken@.map_values(|o: WalletOutput| o@) =~= output_facts(outputs@).map_values(
        |f: DbWalletOutputFacts| f.output,
    ));
    taken
}

/// The part of a chain height that the maturity column can be compared with: heights above its
/// range count as its largest value.
pub open spec fn clamped_height(height: u64) -> i64 {
    if height <= i64::MAX {
        height as i64
    } else {
        i64::MAX
    }
}

fn clamp_height(height: u64) -> (r: i64)
    ensures
        r == clamped_height(height),
{
    if height <= 0x7fff_ffff_ffff_ffff {
        height as i64
    } else {
        0x7fff_ffff_ffff_ffff
    }
}

/// Whether an output may be spent as far as its maturity goes. A maturity that wrapped round to a
/// negative column value lies in a future that is never reached.
pub open spec fn mature(r: OutputRecord, tip_height: u64) -> bool {
    0 <= r.maturity <= clamped_height(tip_height)
}

/// The rows of the outputs that an account can spend: unspent, deep enough in the chain, mature at
/// the tip, not deleted and not burned.
pub open spec fn spendable(account_id: i64, min_height: u64, tip_height: u64) -> spec_fn(
    OutputRecord,
) -> bool {
    |r: OutputRecord|
        {
            &&& r.account_id == account_id
            &&& r.status == OutputStatus::Unspent
            &&& r.mined_in_block_height <= as_signed(min_height)
            &&& mature(r, tip_height)
            &&& r.deleted_at is None
            &&& !r.is_burn
        }
}

/// What listing the outputs that an account can spend comes to.
pub open spec fn spendable_listed(
    rows: Seq<OutputRecord>,
    account_id: i64,
    min_height: u64,
    tip_height: u64,
    result: WalletDbResult<Vec<DbWalletOutput>>,
) -> bool {
    rows_read(
        by_value_descending(rows.filter(spendable(account_id, min_height, tip_height))),
        result,
    )
}

/// Lists the outputs that an account can spend, the most valuable first; outputs of one value stand
/// in the order of their ids.
pub fn fetch_unspent_outputs(
    db: &WalletDb,
    account_id: i64,
    min_height: u64,
    tip_height: u64,
) -> (r: WalletDbResult<Vec<DbWalletOutput>>)
    ensures
        spendable_listed(db@.outputs, account_id, min_height, tip_height, r),
{
    let lowest: i64 = to_signed(min_height);
    let tip: i64 = clamp_height(tip_height);
    let test = |row: &OutputRow| -> (b: bool)
        ensures
            b == spendable(account_id, min_height, tip_height)(row@),
        {
            row.account_id == account_id && row.status == OutputStatus::Unspent
                && row.mined_in_block_height <= lowest && row.maturity >= 0 && row.maturity <= tip
                && row.deleted_at.is_none() && !row.is_burn
        };
    let found = select_rows(
        &db.outputs,
        test,
        Ghost(spendable(account_id, min_height, tip_height)),
    );
    let sorted = order_by_value(&db.outputs, &found);
    read_rows(&db.outputs, &sorted)
}

/// The rows of the outputs that a request has locked.
pub open spec fn locked_by(request_id: Seq<char>) -> spec_fn(OutputRecord) -> bool {
    |r: OutputRecord| r.locked_by_request_id == Some(request_id)
}

/// What listing the outputs that a request has locked comes to.
pub open spec fn held_listed(
    rows: Seq<OutputRecord>,
    request_id: Seq<char>,
    result: WalletDbResult<Vec<DbWalletOutput>>,
) -> bool {
    rows_read(rows.filter(locked_by(request_id)), result)
}

/// Lists the outputs that a request has locked, in the order of their ids.
pub fn fetch_outputs_by_lock_request_id(
    db: &WalletDb,
    locked_by_request_id: &str,
) -> (r: WalletDbResult<Vec<DbWalletOutput>>)
    ensures
        held_listed(db@.outputs, locked_by_request_id@, r),
{
    let test = |row: &OutputRow| -> (b: bool)
        ensures
            b == locked_by(locked_by_request_id@)(row@),
        { text_is(&row.locked_by_request_id, locked_by_request_id) };
    let found = select_rows(&db.outputs, test, Ghost(locked_by(locked_by_request_id@)));
    read_rows(&db.outputs, &found)
}

/// The rows that make up the balance that an account can spend.
pub open spec fn in_unspent_balance(account_id: i64, tip_height: u64) -> spec_fn(
    OutputRecord,
) -> bool {
    |r: OutputRecord|
        {
            &&& r.account_id == account_id
            &&& r.status == OutputStatus::Unspent
            &&& mature(r, tip_height)
            &&& r.deleted_at is None
            &&& !r.is_burn
        }
}

/// What adding up an account's unspent balance comes to.
pub open spec fn balance_found(
    rows: Seq<OutputRecord>,
    account_id: i64,
    tip_height: u64,
    result: WalletDbResult<u64>,
) -> bool {
    let counted = rows.filter(in_unspent_balance(account_id, tip_height));
    match result {
        Ok(total) => sum_fits(counted) && total == value_sum(counted),
        Err(WalletDbError::IntegerOverflow) => !sum_fits(counted),
        Err(WalletDbError::ValueOutOfRange(total)) => sum_fits(counted) && total == value_sum(
            counted,
        ) && total < 0,
        Err(_) => false,
    }
}

/// Adds up an account's unspent, mature outputs. Outputs whose maturity lies above `tip_height` are
/// left out, so that immature funds are not taken for spendable ones.
pub fn get_total_unspent_balance(db: &WalletDb, account_id: i64, tip_height: u64) -> (r:
    WalletDbResult<u64>)
    ensures
        balance_found(db@.outputs, account_id, tip_height, r),
{
    let tip: i64 = clamp_height(tip_height);
    let test = |row: &OutputRow| -> (b: bool)
        ensures
            b == in_unspent_balance(account_id, tip_height)(row@),
        {
            row.account_id == account_id && row.status == OutputStatus::Unspent && row.maturity >= 0
                && row.maturity <= tip && row.deleted_at.is_none() && !row.is_burn
        };
    let found = select_rows(
        &db.outputs,
        test,
        Ghost(in_unspent_balance(account_id, tip_height)),
    );
    match sum_values(&db.outputs, &found) {
        None => Err(WalletDbError::IntegerOverflow),
        Some(total) => if total < 0 {
            Err(WalletDbError::ValueOutOfRange(total))
        } else {
            Ok(total as u64)
        },
    }
}

/// The part of the totals that an output counts towards.
#[derive(Clone, Copy, Debug, PartialEq, Eq, Structural)]
pub enum Bucket {
    Locked,
    Unconfirmed,
    Immature,
    Available,
}

/// Where an output of an account counts. Spent, burned and deleted outputs count nowhere; of the
/// others, locked ones come first, then unconfirmed ones, then immature ones, and what is left is
/// available.
pub open spec fn bucket_of(r: OutputRecord, account_id: i64, tip_height: u64) -> Option<Bucket> {
    if r.account_id != account_id || r.deleted_at is Some || r.is_burn || r.status
        == OutputStatus::Spent {
        None
    } else if r.status == OutputStatus::Locked {
        Some(Bucket::Locked)
    } else if r.confirmed_height is None {
        Some(Bucket::Unconfirmed)
    } else if !mature(r, tip_height) {
        Some(Bucket::Immature)
    } else {
        Some(Bucket::Available)
    }
}

/// The rows that count towards one part of the totals.
pub open spec fn in_bucket(account_id: i64, tip_height: u64, bucket: Bucket) -> spec_fn(
    OutputRecord,
) -> bool {
    |r: OutputRecord| bucket_of(r, account_id, tip_height) == Some(bucket)
}

fn find_bucket(row: &OutputRow, account_id: i64, tip_height: u64) -> (r: Option<Bucket>)
    ensures
        r == bucket_of(row@, account_id, tip_height),
{
    let tip: i64 = clamp_height(tip_height);
    if row.account_id != account_id || row.deleted_at.is_some() || row.is_burn || row.status
        == OutputStatus::Spent {
        None
    } else if row.status == OutputStatus::Locked {
        Some(Bucket::Locked)
    } else if row.confirmed_height.is_none() {
        Some(Bucket::Unconfirmed)
    } else if row.maturity < 0 || row.maturity > tip {
        Some(Bucket::Immature)
    } else {
        Some(Bucket::Available)
    }
}

/// The rows of an account that count towards one part of the totals.
pub open spec fn bucket_rows(
    rows: Seq<OutputRecord>,
    account_id: i64,
    tip_height: u64,
    bucket: Bucket,
) -> Seq<OutputRecord> {
    rows.filter(in_bucket(account_id, tip_height, bucket))
}

fn sum_bucket(db: &WalletDb, account_id: i64, tip_height: u64, bucket: Bucket) -> (r: Option<
    MicroMinotari,
>)
    ensures
        ({
            let counted = bucket_rows(db@.outputs, account_id, tip_height, bucket);
            match r {
                Some(total) => sum_fits(counted) && total == column_amount(value_sum(counted)),
                None => !sum_fits(counted),
            }
        }),
{
    let test = |row: &OutputRow| -> (b: bool)
        ensures
            b == in_bucket(account_id, tip_height, bucket)(row@),
        {
            match find_bucket(row, account_id, tip_height) {
                Some(found) => found == bucket,
                None => false,
            }
        };
    let found = select_rows(&db.outputs, test, Ghost(in_bucket(account_id, tip_height, bucket)));
    match sum_values(&db.outputs, &found) {
        Some(total) => Some(MicroMinotari(to_unsigned(total))),
        None => None,
    }
}

/// The amount that a sum of column values stands for.
pub open spec fn column_amount(sum: int) -> MicroMinotari {
    MicroMinotari(as_unsigned(sum as i64))
}

/// What an account owns, in parts that do not overlap.
///
/// Every output that is not spent, burned or deleted counts towards exactly one of `locked`,
/// `unconfirmed`, `immature` and `available`. `unavailable` is the sum of the first three: the
/// funds that the account has and cannot spend right now.
#[derive(Debug, Clone, Copy, PartialEq, Eq, Structural)]
pub struct OutputTotals {
    pub available: MicroMinotari,
    pub unconfirmed: MicroMinotari,
    pub locked: MicroMinotari,
    pub immature: MicroMinotari,
    pub unavailable: MicroMinotari,
}

/// The totals of an account, where every part can be summed.
pub open spec fn totals_of(rows: Seq<OutputRecord>, account_id: i64, tip_height: u64) -> OutputTotals {
    let total = |bucket: Bucket|
        column_amount(value_sum(bucket_rows(rows, account_id, tip_height, bucket)));
    OutputTotals {
        available: total(Bucket::Available),
        unconfirmed: total(Bucket::Unconfirmed),
        locked: total(Bucket::Locked),
        immature: total(Bucket::Immature),
        unavailable: saturating_sum(
            saturating_sum(total(Bucket::Locked), total(Bucket::Unconfirmed)),
            total(Bucket::Immature),
        ),
    }
}

/// What adding up what an account owns comes to.
pub open spec fn totals_found(
    rows: Seq<OutputRecord>,
    account_id: i64,
    tip_height: u64,
    result: WalletDbResult<OutputTotals>,
) -> bool {
    match result {
        Ok(totals) => {
            &&& forall|bucket: Bucket| sum_fits(
                #[trigger] bucket_rows(rows, account_id, tip_height, bucket),
            )
            &&& totals == totals_of(rows, account_id, tip_height)
        },
        Err(WalletDbError::IntegerOverflow) => exists|bucket: Bucket|
            !sum_fits(#[trigger] bucket_rows(rows, account_id, tip_height, bucket)),
        Err(_) => false,
    }
}

/// Adds up what an account owns. `tip_height` is the latest height of the chain that has been
/// scanned.
pub fn get_output_totals_for_account(db: &WalletDb, account_id: i64, tip_height: u64) -> (r:
    WalletDbResult<OutputTotals>)
    ensures
        totals_found(db@.outputs, account_id, tip_height, r),
{
    let locked = sum_bucket(db, account_id, tip_height, Bucket::Locked);
    let unconfirmed = sum_bucket(db, account_id, tip_height, Bucket::Unconfirmed);
    let immature = sum_bucket(db, account_id, tip_height, Bucket::Immature);
    let available = sum_bucket(db, account_id, tip_height, Bucket::Available);
    match (locked, unconfirmed, immature, available) {
        (Some(locked), Some(unconfirmed), Some(immature), Some(available)) => Ok(
            OutputTotals {
                available,
                unconfirmed,
                locked,
                immature,
                unavailable: locked.saturating_add(unconfirmed).saturating_add(immature),
            },
        ),
        _ => Err(WalletDbError::IntegerOverflow),
    }
}

/// A row once its output has been confirmed.
pub open spec fn confirmed(r: OutputRecord, hash: Seq<u8>, height: u64, block: Seq<u8>) -> OutputRecord {
    if r.output_hash == hash {
        OutputRecord {
            confirmed_height: Some(as_signed(height)),
            confirmed_hash: Some(block),
            ..r
        }
    } else {
        r
    }
}

/// The wallet once the output with the given hash has been confirmed.
pub open spec fn with_confirmation(
    before: WalletState,
    hash: Seq<u8>,
    height: u64,
    block: Seq<u8>,
) -> WalletState {
    WalletState {
        outputs: before.outputs.map_values(
            |row: OutputRecord| confirmed(row, hash, height, block),
        ),
        ..before
    }
}

/// Records that the output with the given hash has been confirmed in a block.
pub fn mark_output_confirmed(
    db: &mut WalletDb,
    output_hash: &FixedHash,
    confirmed_height: u64,
    confirmed_hash: &[u8],
) -> (r: WalletDbResult<()>)
    ensures
        r is Ok,
        final(db)@ == with_confirmation(
            old(db)@,
            output_hash@,
            confirmed_height,
            confirmed_hash@,
        ),
        old(db)@.wf() ==> final(db)@.wf(),
{
    let update = Confirmation {
        hash: *output_hash,
        height: confirmed_height,
        block: copy_slice(confirmed_hash),
    };
    update_rows(&mut db.outputs, &update);
    assert(db@.outputs =~= old(db)@.outputs.map_values(
        |row: OutputRecord| confirmed(row, output_hash@, confirmed_height, confirmed_hash@),
    ));
    Ok(())
}

struct Confirmation {
    hash: FixedHash,
    height: u64,
    block: Vec<u8>,
}

impl RowUpdate for Confirmation {
    closed spec fn updated(&self, r: OutputRecord) -> OutputRecord {
        confirmed(r, self.hash@, self.height, self.block@)
    }

    fn apply(&self, row: &mut OutputRow) {
        if bytes_equal(row.output_hash.as_slice(), self.hash.as_slice()) {
            row.confirmed_height = Some(to_signed(self.height));
            row.confirmed_hash = Some(copy_slice(self.block.as_slice()));
        }
    }
}

/// An output that still waits for its confirmation.
#[derive(Debug)]
pub struct UnconfirmedOutputRow {
    pub output_hash: FixedHash,
    pub mined_in_block_height: i64,
    pub memo_parsed: Option<String>,
    pub memo_hex: Option<String>,
    pub tx_id: i64,
    pub is_burn: i64,
}

/// What an [`UnconfirmedOutputRow`] says.
#[verifier::ext_equal]
pub ghost struct UnconfirmedFacts {
    pub output_hash: Seq<u8>,
    pub mined_in_block_height: i64,
    pub memo_parsed: Option<Seq<char>>,
    pub memo_hex: Option<Seq<char>>,
    pub tx_id: i64,
    pub is_burn: i64,
}

impl View for UnconfirmedOutputRow {
    type V = UnconfirmedFacts;

    open spec fn view(&self) -> UnconfirmedFacts {
        UnconfirmedFacts {
            output_hash: self.output_hash@,
            mined_in_block_height: self.mined_in_block_height,
            memo_parsed: text(self.memo_parsed),
            memo_hex: text(self.memo_hex),
            tx_id: self.tx_id,
            is_burn: self.is_burn,
        }
    }
}

/// What a row says as an output that waits for its confirmation. Of a hash column that is too long
/// the leading bytes count.
pub open spec fn unconfirmed_facts(r: OutputRecord) -> UnconfirmedFacts {
    UnconfirmedFacts {
        output_hash: r.output_hash.take(HASH_LENGTH as int),
        mined_in_block_height: r.mined_in_block_height,
        memo_parsed: r.memo_parsed,
        memo_hex: r.memo_hex,
        tx_id: r.tx_id,
        is_burn: if r.is_burn {
            1
        } else {
            0
        },
    }
}

/// The height at or below which an output has enough blocks on top of it.
pub open spec fn confirmation_height(current_height: u64, confirmation_blocks: u64) -> u64 {
    if current_height >= confirmation_blocks {
        (current_height - confirmation_blocks) as u64
    } else {
        0
    }
}

/// The rows of an account's live outputs that have enough blocks on top of them to be confirmed and
/// are not marked as confirmed yet.
pub open spec fn awaits_confirmation(
    account_id: i64,
    current_height: u64,
    confirmation_blocks: u64,
) -> spec_fn(OutputRecord) -> bool {
    |r: OutputRecord|
        {
            &&& r.account_id == account_id
            &&& r.mined_in_block_height <= as_signed(
                confirmation_height(current_height, confirmation_blocks),
            )
            &&& r.confirmed_height is None
            &&& r.deleted_at is None
        }
}

/// What listing an account's outputs that can now be confirmed comes to.
pub open spec fn waiting_listed(
    rows: Seq<OutputRecord>,
    account_id: i64,
    current_height: u64,
    confirmation_blocks: u64,
    result: WalletDbResult<Vec<UnconfirmedOutputRow>>,
) -> bool {
    let hits = rows.filter(awaits_confirmation(account_id, current_height, confirmation_blocks));
    match result {
        Ok(list) => {
            &&& forall|k: int|
                0 <= k < hits.len() ==> (#[trigger] hits[k]).output_hash.len() >= HASH_LENGTH
            &&& list@.map_values(|u: UnconfirmedOutputRow| u@) == hits.map_values(
                |h: OutputRecord| unconfirmed_facts(h),
            )
        },
        Err(WalletDbError::ShortHash) => exists|k: int|
            0 <= k < hits.len() && (#[trigger] hits[k]).output_hash.len() < HASH_LENGTH,
        Err(_) => false,
    }
}

/// Lists an account's outputs that can now be confirmed, in the order of their ids.
pub fn get_unconfirmed_outputs(
    db: &WalletDb,
    account_id: i64,
    current_height: u64,
    confirmation_blocks: u64,
) -> (r: WalletDbResult<Vec<UnconfirmedOutputRow>>)
    ensures
        waiting_listed(db@.outputs, account_id, current_height, confirmation_blocks, r),
{
    let lowest: i64 = to_signed(current_height.saturating_sub(confirmation_blocks));
    let ghost p = awaits_confirmation(account_id, current_height, confirmation_blocks);
    let test = |row: &OutputRow| -> (b: bool)
        ensures
            b == awaits_confirmation(account_id, current_height, confirmation_blocks)(row@),
        {
            row.account_id == account_id && row.mined_in_block_height <= lowest
                && row.confirmed_height.is_none() && row.deleted_at.is_none()
        };
    let found = select_rows(&db.outputs, test, Ghost(p));
    let ghost hits = db@.outputs.filter(p);
    let mut list: Vec<UnconfirmedOutputRow> = Vec::new();
    let mut k: usize = 0;
    while k < found.len()
        invariant
            k <= found@.len(),
            hits == rows_at(db.outputs@, found@),
            hits == db@.outputs.filter(
                awaits_confirmation(account_id, current_height, confirmation_blocks),
            ),
            forall|k: int| 0 <= k < found@.len() ==> (#[trigger] found@[k]) < db.outputs@.len(),
            list@.len() == k,
            forall|j: int| 0 <= j < k ==> (#[trigger] hits[j]).output_hash.len() >= HASH_LENGTH,
            forall|j: int| 0 <= j < k ==> (#[trigger] list@[j])@ == unconfirmed_facts(hits[j]),
        decreases found.len() - k,
    {
        let row = &db.outputs[found[k]];
        assert(row@ == hits[k as int]);
        match leading_hash(row.output_hash.as_slice()) {
            None => {
                assert(hits[k as int].output_hash.len() < HASH_LENGTH);
                return Err(WalletDbError::ShortHash);
            },
            Some(output_hash) => {
                list.push(
                    UnconfirmedOutputRow {
                        output_hash,
                        mined_in_block_height: row.mined_in_block_height,
                        memo_parsed: copy_text(&row.memo_parsed),
                        memo_hex: copy_text(&row.memo_hex),
                        tx_id: row.tx_id,
                        is_burn: if row.is_burn {
                            1
                        } else {
                            0
                        },
                    },
                );
            },
        }
        k = k + 1;
    }
    assert(list@.map_values(|u: UnconfirmedOutputRow| u@) =~= hits.map_values(
        |h: OutputRecord| unconfirmed_facts(h),
    ));
    Ok(list)
}

/// A row once the status of its output has been set.
pub open spec fn with_status(r: OutputRecord, output_id: i64, status: OutputStatus) -> OutputRecord {
    if r.id == output_id {
        OutputRecord { status, ..r }
    } else {
        r
    }
}

/// The wallet once the status of an output has been set.
pub open spec fn with_output_status(
    before: WalletState,
    output_id: i64,
    status: OutputStatus,
) -> WalletState {
    WalletState {
        outputs: before.outputs.map_values(
            |row: OutputRecord| with_status(row, output_id, status),
        ),
        ..before
    }
}

/// Sets the status of an output.
pub fn update_output_status(db: &mut WalletDb, output_id: i64, status: OutputStatus) -> (r:
    WalletDbResult<()>)
    ensures
        r is Ok,
        final(db)@ == with_output_status(old(db)@, output_id, status),
        old(db)@.wf() ==> final(db)@.wf(),
{
    update_rows(&mut db.outputs, &StatusChange { output_id, status });
    assert(db@.outputs =~= old(db)@.outputs.map_values(
        |row: OutputRecord| with_status(row, output_id, status),
    ));
    Ok(())
}

struct StatusChange {
    output_id: i64,
    status: OutputStatus,
}

impl RowUpdate for StatusChange {
    closed spec fn updated(&self, r: OutputRecord) -> OutputRecord {
        with_status(r, self.output_id, self.status)
    }

    fn apply(&self, row: &mut OutputRow) {
        if row.id == self.output_id {
            row.status = self.status;
        }
    }
}

/// A row once a request has tried to lock its output: only an unspent output is locked.
pub open spec fn with_lock(
    r: OutputRecord,
    output_id: i64,
    request_id: Seq<char>,
    locked_at: UtcTime,
) -> OutputRecord {
    if r.id == output_id && r.status == OutputStatus::Unspent {
        OutputRecord {
            status: OutputStatus::Locked,
            locked_by_request_id: Some(request_id),
            locked_at: Some(locked_at),
            ..r
        }
    } else {
        r
    }
}

/// The wallet once a request has tried to lock an output.
pub open spec fn with_output_locked(
    before: WalletState,
    output_id: i64,
    request_id: Seq<char>,
    locked_at: UtcTime,
) -> WalletState {
    WalletState {
        outputs: before.outputs.map_values(
            |row: OutputRecord| with_lock(row, output_id, request_id, locked_at),
        ),
        ..before
    }
}

/// Locks an output for a request. An output that is not unspent stays as it is.
pub fn lock_output(
    db: &mut WalletDb,
    output_id: i64,
    locked_by_request_id: &str,
    locked_at: UtcTime,
) -> (r: WalletDbResult<()>)
    ensures
        r is Ok,
        final(db)@ == with_output_locked(old(db)@, output_id, locked_by_request_id@, locked_at),
        old(db)@.wf() ==> final(db)@.wf(),
{
    let update = Lock { output_id, request_id: locked_by_request_id.to_owned(), locked_at };
    update_rows(&mut db.outputs, &update);
    assert(db@.outputs =~= old(db)@.outputs.map_values(
        |row: OutputRecord| with_lock(row, output_id, locked_by_request_id@, locked_at),
    ));
    Ok(())
}

struct Lock {
    output_id: i64,
    request_id: String,
    locked_at: UtcTime,
}

impl RowUpdate for Lock {
    closed spec fn updated(&self, r: OutputRecord) -> OutputRecord {
        with_lock(r, self.output_id, self.request_id@, self.locked_at)
    }

    fn apply(&self, row: &mut OutputRow) {
        if row.id == self.output_id && row.status == OutputStatus::Unspent {
            row.status = OutputStatus::Locked;
            row.locked_by_request_id = Some(self.request_id.clone());
            row.locked_at = Some(self.locked_at);
        }
    }
}

/// A row once a request has given its outputs back.
pub open spec fn without_lock(r: OutputRecord, request_id: Seq<char>) -> OutputRecord {
    if r.locked_by_request_id == Some(request_id) && r.status == OutputStatus::Locked {
        OutputRecord {
            status: OutputStatus::Unspent,
            locked_by_request_id: None,
            locked_at: None,
            ..r
        }
    } else {
        r
    }
}

/// The wallet once a request has given its outputs back.
pub open spec fn with_outputs_unlocked(before: WalletState, request_id: Seq<char>) -> WalletState {
    WalletState {
        outputs: before.outputs.map_values(|row: OutputRecord| without_lock(row, request_id)),
        ..before
    }
}

/// Gives back the outputs that a request holds locked. Outputs that it has spent stay as they are.
pub fn unlock_outputs_for_request(db: &mut WalletDb, locked_by_request_id: &str) -> (r:
    WalletDbResult<()>)
    ensures
        r is Ok,
        final(db)@ == with_outputs_unlocked(old(db)@, locked_by_request_id@),
        old(db)@.wf() ==> final(db)@.wf(),
{
    let update = Unlock { request_id: locked_by_request_id.to_owned() };
    update_rows(&mut db.outputs, &update);
    assert(db@.outputs =~= old(db)@.outputs.map_values(
        |row: OutputRecord| without_lock(row, locked_by_request_id@),
    ));
    Ok(())
}

struct Unlock {
    request_id: String,
}

impl RowUpdate for Unlock {
    closed spec fn updated(&self, r: OutputRecord) -> OutputRecord {
        without_lock(r, self.request_id@)
    }

    fn apply(&self, row: &mut OutputRow) {
        if row.status == OutputStatus::Locked && text_is(
            &row.locked_by_request_id,
            self.request_id.as_str(),
        ) {
            row.status = OutputStatus::Unspent;
            row.locked_by_request_id = None;
            row.locked_at = None;
        }
    }
}

/// A row of the outputs table as it is handed out.
#[derive(Debug)]
pub struct DbOutput {
    pub id: i64,
    pub account_id: i64,
    pub output_hash: Vec<u8>,
    pub mined_in_block_hash: Vec<u8>,
    pub mined_in_block_height: i64,
    pub value: i64,
    pub created_at: UtcTime,
    pub wallet_output_json: Option<String>,
    pub mined_timestamp: UtcTime,
    pub confirmed_height: Option<i64>,
    pub confirmed_hash: Option<Vec<u8>>,
    pub memo_parsed: Option<String>,
    pub memo_hex: Option<String>,
    pub status: String,
    pub locked_at: Option<UtcTime>,
    pub locked_by_request_id: Option<String>,
    pub deleted_at: Option<UtcTime>,
    pub deleted_in_block_height: Option<i64>,
    pub payment_reference: Option<String>,
    pub maturity: i64,
}

/// Whether a handed-out row says what the row of the table says.
pub open spec fn shows(o: DbOutput, r: OutputRecord) -> bool {
    &&& o.id == r.id
    &&& o.account_id == r.account_id
    &&& o.output_hash@ == r.output_hash
    &&& o.mined_in_block_hash@ == r.mined_in_block_hash
    &&& o.mined_in_block_height == r.mined_in_block_height
    &&& o.value == r.value
    &&& o.created_at == r.created_at
    &&& text(o.wallet_output_json) == r.wallet_output_json
    &&& o.mined_timestamp == r.mined_timestamp
    &&& o.confirmed_height == r.confirmed_height
    &&& bytes(o.confirmed_hash) == r.confirmed_hash
    &&& text(o.memo_parsed) == r.memo_parsed
    &&& text(o.memo_hex) == r.memo_hex
    &&& o.status@ == status_text(r.status)
    &&& o.locked_at == r.locked_at
    &&& text(o.locked_by_request_id) == r.locked_by_request_id
    &&& o.deleted_at == r.deleted_at
    &&& o.deleted_in_block_height == r.deleted_in_block_height
    &&& text(o.payment_reference) == r.payment_reference
    &&& o.maturity == r.maturity
}

/// Whether two handed-out rows agree in every field.
pub open spec fn same_fields(a: DbOutput, b: DbOutput) -> bool {
    &&& a.id == b.id
    &&& a.account_id == b.account_id
    &&& a.output_hash@ == b.output_hash@
    &&& a.mined_in_block_hash@ == b.mined_in_block_hash@
    &&& a.mined_in_block_height == b.mined_in_block_height
    &&& a.value == b.value
    &&& a.created_at == b.created_at
    &&& text(a.wallet_output_json) == text(b.wallet_output_json)
    &&& a.mined_timestamp == b.mined_timestamp
    &&& a.confirmed_height == b.confirmed_height
    &&& bytes(a.confirmed_hash) == bytes(b.confirmed_hash)
    &&& text(a.memo_parsed) == text(b.memo_parsed)
    &&& text(a.memo_hex) == text(b.memo_hex)
    &&& a.status@ == b.status@
    &&& a.locked_at == b.locked_at
    &&& text(a.locked_by_request_id) == text(b.locked_by_request_id)
    &&& a.deleted_at == b.deleted_at
    &&& a.deleted_in_block_height == b.deleted_in_block_height
    &&& text(a.payment_reference) == text(b.payment_reference)
    &&& a.maturity == b.maturity
}

impl Clone for DbOutput {
    fn clone(&self) -> (r: Self)
        ensures
            same_fields(*self, r),
    {
        DbOutput {
            id: self.id,
            account_id: self.account_id,
            output_hash: copy_slice(self.output_hash.as_slice()),
            mined_in_block_hash: copy_slice(self.mined_in_block_hash.as_slice()),
            mined_in_block_height: self.mined_in_block_height,
            value: self.value,
            created_at: self.created_at,
            wallet_output_json: copy_text(&self.wallet_output_json),
            mined_timestamp: self.mined_timestamp,
            confirmed_height: self.confirmed_height,
            confirmed_hash: copy_bytes(&self.confirmed_hash),
            memo_parsed: copy_text(&self.memo_parsed),
            memo_hex: copy_text(&self.memo_hex),
            status: self.status.clone(),
            locked_at: self.locked_at,
            locked_by_request_id: copy_text(&self.locked_by_request_id),
            deleted_at: self.deleted_at,
            deleted_in_block_height: self.deleted_in_block_height,
            payment_reference: copy_text(&self.payment_reference),
            maturity: self.maturity,
        }
    }
}

impl DbOutput {
    /// Decodes the wallet output that the row stores.
    pub fn to_wallet_output(&self) -> (r: WalletDbResult<WalletOutput>)
        ensures
            match self.wallet_output_json {
                None => r matches Err(WalletDbError::Unexpected(message)) && message@
                    == "Output JSON is null"@,
                Some(json) => match r {
                    Ok(output) => decoded_wallet_output(json@) is Some && output@
                        == wallet_output_of(json@),
                    Err(WalletDbError::Json(_)) => decoded_wallet_output(json@) is None,
                    Err(_) => false,
                },
            },
    {
        match &self.wallet_output_json {
            None => Err(WalletDbError::Unexpected("Output JSON is null".to_owned())),
            Some(json) => WalletOutput::from_json(json.as_str()),
        }
    }
}

/// The rows with the given id.
pub open spec fn has_id(output_id: i64) -> spec_fn(OutputRecord) -> bool {
    |r: OutputRecord| r.id == output_id
}

/// What looking an output up by its id comes to.
pub open spec fn handed_out(
    rows: Seq<OutputRecord>,
    output_id: i64,
    result: WalletDbResult<Option<DbOutput>>,
) -> bool {
    let hits = rows.filter(has_id(output_id));
    &&& result is Ok
    &&& match result->Ok_0 {
        Some(output) => hits.len() > 0 && shows(output, hits[0]),
        None => hits.len() == 0,
    }
}

/// Looks an output up by its id, deleted or not.
pub fn get_output_by_id(db: &WalletDb, output_id: i64) -> (r: WalletDbResult<Option<DbOutput>>)
    ensures
        handed_out(db@.outputs, output_id, r),
{
    let test = |row: &OutputRow| -> (b: bool)
        ensures
            b == has_id(output_id)(row@),
        { row.id == output_id };
    let found = select_rows(&db.outputs, test, Ghost(has_id(output_id)));
    if found.len() == 0 {
        return Ok(None);
    }
    let row = &db.outputs[found[0]];
    Ok(
        Some(
            DbOutput {
                id: row.id,
                account_id: row.account_id,
                output_hash: copy_slice(row.output_hash.as_slice()),
                mined_in_block_hash: copy_slice(row.mined_in_block_hash.as_slice()),
                mined_in_block_height: row.mined_in_block_height,
                value: row.value,
                created_at: row.created_at,
                wallet_output_json: copy_text(&row.wallet_output_json),
                mined_timestamp: row.mined_timestamp,
                confirmed_height: row.confirmed_height,
                confirmed_hash: copy_bytes(&row.confirmed_hash),
                memo_parsed: copy_text(&row.memo_parsed),
                memo_hex: copy_text(&row.memo_hex),
                status: row.status.to_string(),
                locked_at: row.locked_at,
                locked_by_request_id: copy_text(&row.locked_by_request_id),
                deleted_at: row.deleted_at,
                deleted_in_block_height: row.deleted_in_block_height,
                payment_reference: copy_text(&row.payment_reference),
                maturity: row.maturity,
            },
        ),
    )
}

/// What a chain reorganisation has to know of an output.
#[derive(Debug)]
pub struct ReorgOutputInfo {
    pub output_hash: Vec<u8>,
    pub mined_in_block_height: i64,
    pub locked_by_request_id: Option<String>,
}

/// What a [`ReorgOutputInfo`] says.
#[verifier::ext_equal]
pub ghost struct ReorgFacts {
    pub output_hash: Seq<u8>,
    pub mined_in_block_height: i64,
    pub locked_by_request_id: Option<Seq<char>>,
}

impl View for ReorgOutputInfo {
    type V = ReorgFacts;

    open spec fn view(&self) -> ReorgFacts {
        ReorgFacts {
            output_hash: self.output_hash@,
            mined_in_block_height: self.mined_in_block_height,
            locked_by_request_id: text(self.locked_by_request_id),
        }
    }
}

pub open spec fn reorg_facts(r: OutputRecord) -> ReorgFacts {
    ReorgFacts {
        output_hash: r.output_hash,
        mined_in_block_height: r.mined_in_block_height,
        locked_by_request_id: r.locked_by_request_id,
    }
}

/// The rows of an account's live outputs that were mined at the given height or above it.
pub open spec fn active_from(account_id: i64, height: u64) -> spec_fn(OutputRecord) -> bool {
    |r: OutputRecord|
        r.account_id == account_id && r.mined_in_block_height >= as_signed(height)
            && r.deleted_at is None
}

fn find_active(db: &WalletDb, account_id: i64, height: u64) -> (found: Vec<usize>)
    ensures
        forall|k: int| 0 <= k < found@.len() ==> (#[trigger] found@[k]) < db.outputs@.len(),
        rows_at(db.outputs@, found@) == db@.outputs.filter(active_from(account_id, height)),
{
    let lowest: i64 = to_signed(height);
    let test = |row: &OutputRow| -> (b: bool)
        ensures
            b == active_from(account_id, height)(row@),
        {
            row.account_id == account_id && row.mined_in_block_height >= lowest
                && row.deleted_at.is_none()
        };
    select_rows(&db.outputs, test, Ghost(active_from(account_id, height)))
}

/// What listing an account's live outputs from a height on comes to.
pub open spec fn active_listed(
    rows: Seq<OutputRecord>,
    account_id: i64,
    height: u64,
    result: WalletDbResult<Vec<ReorgOutputInfo>>,
) -> bool {
    &&& result is Ok
    &&& result->Ok_0@.map_values(|i: ReorgOutputInfo| i@) == rows.filter(
        active_from(account_id, height),
    ).map_values(|h: OutputRecord| reorg_facts(h))
}

/// Lists an account's live outputs that were mined at the given height or above it, in the order of
/// their ids.
pub fn get_active_outputs_from_height(db: &WalletDb, account_id: i64, height: u64) -> (r:
    WalletDbResult<Vec<ReorgOutputInfo>>)
    ensures
        active_listed(db@.outputs, account_id, height, r),
{
    let found = find_active(db, account_id, height);
    let ghost hits = db@.outputs.filter(active_from(account_id, height));
    let mut list: Vec<ReorgOutputInfo> = Vec::new();
    let mut k: usize = 0;
    while k < found.len()
        invariant
            k <= found@.len(),
            hits == rows_at(db.outputs@, found@),
            forall|k: int| 0 <= k < found@.len() ==> (#[trigger] found@[k]) < db.outputs@.len(),
            list@.len() == k,
            forall|j: int| 0 <= j < k ==> (#[trigger] list@[j])@ == reorg_facts(hits[j]),
        decreases found.len() - k,
    {
        let row = &db.outputs[found[k]];
        list.push(
            ReorgOutputInfo {
                output_hash: copy_slice(row.output_hash.as_slice()),
                mined_in_block_height: row.mined_in_block_height,
                locked_by_request_id: copy_text(&row.locked_by_request_id),
            },
        );
        k = k + 1;
    }
    assert(list@.map_values(|i: ReorgOutputInfo| i@) =~= hits.map_values(
        |h: OutputRecord| reorg_facts(h),
    ));
    Ok(list)
}

/// The row that is stored for an output that was found in a block.
pub open spec fn new_record(
    id: i64,
    created_at: UtcTime,
    account_id: i64,
    account_view_key: Seq<u8>,
    output_hash: Seq<u8>,
    output: WalletOutputFacts,
    block_height: u64,
    block_hash: Seq<u8>,
    mined_timestamp: u64,
    memo_parsed: Option<Seq<char>>,
    memo_hex: Option<Seq<char>>,
    payment_reference: Seq<u8>,
    is_burn: bool,
) -> OutputRecord {
    OutputRecord {
        id,
        account_id,
        tx_id: as_signed(deterministic_tx_id(account_view_key, output.output_hash)),
        output_hash,
        mined_in_block_height: as_signed(block_height),
        mined_in_block_hash: block_hash,
        value: as_signed(output.value.0),
        created_at,
        mined_timestamp: UtcTime { seconds: as_signed(mined_timestamp), nanos: 0 },
        wallet_output_json: Some(output.json),
        memo_parsed,
        memo_hex,
        payment_reference: Some(hex_text(payment_reference)),
        is_burn,
        maturity: as_signed(output.maturity),
        status: OutputStatus::Unspent,
        confirmed_height: None,
        confirmed_hash: None,
        locked_at: None,
        locked_by_request_id: None,
        deleted_at: None,
        deleted_in_block_height: None,
    }
}

/// What storing an output comes to: a new row at the end of the table, or an error and no change.
pub open spec fn output_stored(
    before: WalletState,
    after: WalletState,
    account_id: i64,
    account_view_key: Seq<u8>,
    output_hash: Seq<u8>,
    output: WalletOutputFacts,
    block_height: u64,
    block_hash: Seq<u8>,
    mined_timestamp: u64,
    memo_parsed: Option<Seq<char>>,
    memo_hex: Option<Seq<char>>,
    payment_reference: Seq<u8>,
    is_burn: bool,
    result: WalletDbResult<i64>,
) -> bool {
    match result {
        Ok(id) => {
            &&& representable(as_signed(mined_timestamp) as int)
            &&& id == next_output_id(before.outputs)
            &&& after.outputs.last().created_at.wf()
            &&& after == (WalletState {
                outputs: before.outputs.push(
                    new_record(
                        id,
                        after.outputs.last().created_at,
                        account_id,
                        account_view_key,
                        output_hash,
                        output,
                        block_height,
                        block_hash,
                        mined_timestamp,
                        memo_parsed,
                        memo_hex,
                        payment_reference,
                        is_burn,
                    ),
                ),
                ..before
            })
        },
        Err(WalletDbError::Decoding(message)) => {
            &&& !representable(as_signed(mined_timestamp) as int)
            &&& message@ == "Invalid mined timestamp: "@ + decimal(mined_timestamp as nat)
            &&& after == before
        },
        Err(WalletDbError::TableFull) => {
            &&& representable(as_signed(mined_timestamp) as int)
            &&& next_output_id(before.outputs) > i64::MAX
            &&& after == before
        },
        Err(_) => false,
    }
}

/// Stores an output that was found in a block, and gives the id of its row. The row is unspent and
/// unconfirmed, and remembers when it was made. Its transaction id is the one that the account's
/// view key and the hash of the wallet output determine.
pub fn insert_output(
    db: &mut WalletDb,
    account_id: i64,
    account_view_key: &[u8],
    output_hash: Vec<u8>,
    output: &WalletOutput,
    block_height: u64,
    block_hash: &FixedHash,
    mined_timestamp: u64,
    memo_parsed: Option<String>,
    memo_hex: Option<String>,
    payment_reference: FixedHash,
    is_burn: bool,
) -> (r: WalletDbResult<i64>)
    ensures
        output_stored(
            old(db)@,
            final(db)@,
            account_id,
            account_view_key@,
            output_hash@,
            output@,
            block_height,
            block_hash@,
            mined_timestamp,
            text(memo_parsed),
            text(memo_hex),
            payment_reference@,
            is_burn,
            r,
        ),
        old(db)@.wf() ==> final(db)@.wf(),
{
    let tx_id: i64 = to_signed(new_deterministic_tx_id(account_view_key, &output.output_hash()));
    let mined_at = match utc_from_timestamp(to_signed(mined_timestamp)) {
        Some(time) => time,
        None => {
            let message = "Invalid mined timestamp: ".to_owned();
            let number = number_to_string(mined_timestamp);
            return Err(WalletDbError::Decoding(message.concat(number.as_str())));
        },
    };
    let n: usize = db.outputs.len();
    let mut id: i64 = 1;
    if n > 0 {
        let last: i64 = db.outputs[n - 1].id;
        assert(db@.outputs.last() == db.outputs@[n - 1]@);
        if last == i64::MAX {
            return Err(WalletDbError::TableFull);
        }
        id = last + 1;
    }
    let row = OutputRow {
        id,
        account_id,
        tx_id,
        output_hash,
        mined_in_block_height: to_signed(block_height),
        mined_in_block_hash: block_hash.to_vec(),
        value: to_signed(output.value().as_u64()),
        created_at: utc_now(),
        mined_timestamp: mined_at,
        wallet_output_json: Some(output.json.clone()),
        memo_parsed,
        memo_hex,
        payment_reference: Some(hex_encode(payment_reference.as_slice())),
        is_burn,
        maturity: to_signed(output.maturity),
        status: OutputStatus::Unspent,
        confirmed_height: None,
        confirmed_hash: None,
        locked_at: None,
        locked_by_request_id: None,
        deleted_at: None,
        deleted_in_block_height: None,
    };
    let ghost record = row@;
    let ghost before = db.outputs@;
    db.outputs.push(row);
    assert(output_records(db.outputs@) =~= output_records(before).push(record));
    assert(db@ =~= (WalletState { outputs: old(db)@.outputs.push(record), ..old(db)@ }));
    Ok(id)
}

/// The ledger entry that takes back the credit for an output whose block has left the chain.
pub open spec fn reversal_record(
    account_id: i64,
    output_id: i64,
    value: i64,
    height: u64,
    now: UtcTime,
    original: Option<i64>,
) -> ChangeRecord {
    ChangeRecord {
        account_id,
        caused_by_output_id: Some(output_id),
        caused_by_input_id: None,
        description: "Reversal: Output found in blockchain scan (reorg at height "@ + decimal(
            height as nat,
        ) + ")"@,
        balance_credit: MicroMinotari(0),
        balance_debit: MicroMinotari(as_unsigned(value)),
        effective_date: now,
        effective_height: height,
        claimed_recipient_address: None,
        claimed_sender_address: None,
        memo_parsed: None,
        memo_hex: None,
        claimed_fee: None,
        claimed_amount: None,
        is_reversal: true,
        reversal_of_balance_change_id: original,
        is_reversed: false,
    }
}

/// Makes the ledger entry that takes back the credit for an output.
fn reversal_of_output(
    account_id: i64,
    output_id: i64,
    value: i64,
    height: u64,
    now: UtcTime,
    original: Option<i64>,
) -> (r: BalanceChange)
    ensures
        r@ == reversal_record(account_id, output_id, value, height, now, original),
{
    let number = number_to_string(height);
    let start = "Reversal: Output found in blockchain scan (reorg at height ".to_owned();
    BalanceChange {
        account_id,
        caused_by_output_id: Some(output_id),
        caused_by_input_id: None,
        description: start.concat(number.as_str()).concat(")"),
        balance_credit: MicroMinotari(0),
        balance_debit: MicroMinotari(to_unsigned(value)),
        effective_date: now,
        effective_height: height,
        claimed_recipient_address: None,
        claimed_sender_address: None,
        memo_parsed: None,
        memo_hex: None,
        claimed_fee: None,
        claimed_amount: None,
        is_reversal: true,
        reversal_of_balance_change_id: original,
        is_reversed: false,
    }
}

/// Whether one of the outputs was recorded by the ledger entry with the given id.
pub open spec fn recorded_by(
    changes: Seq<(i64, ChangeRecord)>,
    removed: Seq<OutputRecord>,
    id: i64,
) -> bool {
    exists|k: int|
        0 <= k < removed.len() && original_change(changes, (#[trigger] removed[k]).id) == Some(id)
}

/// The ledger after the credits for some outputs have been taken back: the entries that recorded
/// them are marked as reversed, and for each output, in order, an entry that takes its credit back
/// stands at the end.
pub open spec fn reversed_ledger(
    changes: Seq<(i64, ChangeRecord)>,
    removed: Seq<OutputRecord>,
    account_id: i64,
    height: u64,
    now: UtcTime,
) -> Seq<(i64, ChangeRecord)> {
    Seq::new(
        changes.len() + removed.len(),
        |i: int|
            if i < changes.len() {
                if recorded_by(changes, removed, changes[i].0) {
                    (changes[i].0, ChangeRecord { is_reversed: true, ..changes[i].1 })
                } else {
                    changes[i]
                }
            } else {
                let r = removed[i - changes.len()];
                (
                    (next_change_id(changes) + (i - changes.len())) as i64,
                    reversal_record(
                        account_id,
                        r.id,
                        r.value,
                        height,
                        now,
                        original_change(changes, r.id),
                    ),
                )
            },
    )
}

/// A row once the blocks from the given height on have left the chain.
pub open spec fn soft_deleted(
    r: OutputRecord,
    account_id: i64,
    height: u64,
    now: UtcTime,
) -> OutputRecord {
    if active_from(account_id, height)(r) {
        OutputRecord {
            deleted_at: Some(now),
            deleted_in_block_height: Some(as_signed(height)),
            payment_reference: None,
            ..r
        }
    } else {
        r
    }
}

struct SoftDeletion {
    account_id: i64,
    height: u64,
    now: UtcTime,
}

impl RowUpdate for SoftDeletion {
    closed spec fn updated(&self, r: OutputRecord) -> OutputRecord {
        soft_deleted(r, self.account_id, self.height, self.now)
    }

    fn apply(&self, row: &mut OutputRow) {
        let lowest: i64 = to_signed(self.height);
        if row.account_id == self.account_id && row.mined_in_block_height >= lowest
            && row.deleted_at.is_none() {
            row.deleted_at = Some(self.now);
            row.deleted_in_block_height = Some(lowest);
            row.payment_reference = None;
        }
    }
}

/// Taking credits back does not change which entry recorded an output.
proof fn lemma_originals_stay(
    changes: Seq<(i64, ChangeRecord)>,
    removed: Seq<OutputRecord>,
    account_id: i64,
    height: u64,
    now: UtcTime,
    output_id: i64,
    n: int,
)
    requires
        0 <= n <= changes.len() + removed.len(),
    ensures
        original_change(
            reversed_ledger(changes, removed, account_id, height, now).take(n),
            output_id,
        ) == original_change(
            changes.take(if n <= changes.len() { n } else { changes.len() as int }),
            output_id,
        ),
    decreases n,
{
    let ledger = reversed_ledger(changes, removed, account_id, height, now);
    if n == 0 {
        assert(ledger.take(0) =~= changes.take(0));
    } else {
        lemma_originals_stay(changes, removed, account_id, height, now, output_id, n - 1);
        assert(ledger.take(n).drop_last() =~= ledger.take(n - 1));
        assert(ledger.take(n).last() == ledger[n - 1]);
        if n <= changes.len() {
            assert(changes.take(n).drop_last() =~= changes.take(n - 1));
            assert(changes.take(n).last() == changes[n - 1]);
        }
    }
}

/// The ledger after one more credit has been taken back.
proof fn lemma_ledger_step(
    changes: Seq<(i64, ChangeRecord)>,
    removed: Seq<OutputRecord>,
    account_id: i64,
    height: u64,
    now: UtcTime,
    k: int,
)
    requires
        0 <= k < removed.len(),
        change_ids_rise(changes),
        next_change_id(changes) + k <= i64::MAX,
    ensures
        ({
            let before = reversed_ledger(changes, removed.take(k), account_id, height, now);
            let after = reversed_ledger(changes, removed.take(k + 1), account_id, height, now);
            let r = removed[k];
            let original = original_change(changes, r.id);
            let marked = match original {
                Some(id) => before.map_values(|c: (i64, ChangeRecord)| marked_reversed(c, id)),
                None => before,
            };
            &&& original_change(before, r.id) == original
            &&& next_change_id(before) == next_change_id(changes) + k
            &&& next_change_id(marked) == next_change_id(before)
            &&& after == marked.push(
                (
                    (next_change_id(changes) + k) as i64,
                    reversal_record(account_id, r.id, r.value, height, now, original),
                ),
            )
        }),
{
    let before = reversed_ledger(changes, removed.take(k), account_id, height, now);
    let after = reversed_ledger(changes, removed.take(k + 1), account_id, height, now);
    let r = removed[k];
    let original = original_change(changes, r.id);
    lemma_originals_stay(
        changes,
        removed.take(k),
        account_id,
        height,
        now,
        r.id,
        before.len() as int,
    );
    assert(before.take(before.len() as int) =~= before);
    assert(changes.take(changes.len() as int) =~= changes);
    let marked = match original {
        Some(id) => before.map_values(|c: (i64, ChangeRecord)| marked_reversed(c, id)),
        None => before,
    };
    assert forall|i: int| 0 <= i < changes.len() implies (recorded_by(
        changes,
        removed.take(k + 1),
        #[trigger] changes[i].0,
    ) <==> recorded_by(changes, removed.take(k), changes[i].0) || original == Some(
        changes[i].0,
    )) by {
        let id = changes[i].0;
        if recorded_by(changes, removed.take(k + 1), id) {
            let j = choose|j: int|
                0 <= j < k + 1 && original_change(
                    changes,
                    (#[trigger] removed.take(k + 1)[j]).id,
                ) == Some(id);
            if j < k {
                assert(removed.take(k)[j] == removed.take(k + 1)[j]);
            }
        }
        if recorded_by(changes, removed.take(k), id) {
            let j = choose|j: int|
                0 <= j < k && original_change(changes, (#[trigger] removed.take(k)[j]).id) == Some(
                    id,
                );
            assert(removed.take(k)[j] == removed.take(k + 1)[j]);
        }
        if original == Some(id) {
            assert(removed.take(k + 1)[k] == r);
        }
    }
    if original is Some {
        lemma_original_stands(changes, r.id);
    }
    let pushed = marked.push(
        (
            (next_change_id(changes) + k) as i64,
            reversal_record(account_id, r.id, r.value, height, now, original),
        ),
    );
    assert forall|i: int| 0 <= i < after.len() implies after[i] == pushed[i] by {
        if i < changes.len() {
            assert(changes[i].0 == before[i].0);
        } else if i < changes.len() + k {
            assert(removed.take(k + 1)[i - changes.len()] == removed.take(k)[i - changes.len()]);
            assert(before[i].0 == next_change_id(changes) + (i - changes.len()));
        }
    }
    assert(after =~= pushed);
}

/// The ids in the ledger still rise once credits have been taken back.
proof fn lemma_ledger_ids_rise(
    changes: Seq<(i64, ChangeRecord)>,
    removed: Seq<OutputRecord>,
    account_id: i64,
    height: u64,
    now: UtcTime,
)
    requires
        change_ids_rise(changes),
        next_change_id(changes) + removed.len() <= i64::MAX + 1,
    ensures
        change_ids_rise(reversed_ledger(changes, removed, account_id, height, now)),
{
    let ledger = reversed_ledger(changes, removed, account_id, height, now);
    assert forall|i: int, j: int| 0 <= i < j < ledger.len() implies (#[trigger] ledger[i]).0 < (
    #[trigger] ledger[j]).0 by {
        let n = changes.len() as int;
        if i < n {
            assert(ledger[i].0 == changes[i].0);
            assert(changes[i].0 <= changes[n - 1].0);
        }
        if j < n {
            assert(ledger[j].0 == changes[j].0);
        } else {
            assert(ledger[j].0 == next_change_id(changes) + (j - n));
        }
    }
}

/// What comes of removing an account's outputs from the given height on. Either their credits are
/// taken back and their rows are marked as deleted, or the ledger has no ids left for that and
/// nothing changes.
pub open spec fn soft_deletion(
    before: WalletState,
    after: WalletState,
    account_id: i64,
    height: u64,
    now: UtcTime,
    result: WalletDbResult<()>,
) -> bool {
    let removed = before.outputs.filter(active_from(account_id, height));
    let room = i64::MAX + 1 - next_change_id(before.balance_changes);
    match result {
        Ok(_) => {
            &&& removed.len() <= room
            &&& after == (WalletState {
                outputs: before.outputs.map_values(
                    |row: OutputRecord| soft_deleted(row, account_id, height, now),
                ),
                balance_changes: reversed_ledger(
                    before.balance_changes,
                    removed,
                    account_id,
                    height,
                    now,
                ),
                ..before
            })
        },
        Err(WalletDbError::TableFull) => removed.len() > room && after == before,
        Err(_) => false,
    }
}

/// Removes an account's outputs that were mined at the given height or above it, because the chain
/// has been reorganised there: their credits are taken back in the ledger, and the rows are marked
/// as deleted at the given time and lose their payment references.
pub fn soft_delete_outputs_at(
    db: &mut WalletDb,
    account_id: i64,
    height: u64,
    now: UtcTime,
) -> (r: WalletDbResult<()>)
    requires
        old(db)@.wf(),
    ensures
        soft_deletion(old(db)@, final(db)@, account_id, height, now, r),
        final(db)@.wf(),
{
    let found = find_active(db, account_id, height);
    let ghost start = db@;
    let ghost removed = start.outputs.filter(active_from(account_id, height));
    let n: usize = db.balance_changes.len();
    let mut last: i64 = 0;
    if n > 0 {
        last = db.balance_changes[n - 1].id;
        assert(db@.balance_changes.last() == db.balance_changes@[n - 1]@);
    }
    if found.len() as i128 > i64::MAX as i128 - last as i128 {
        return Err(WalletDbError::TableFull);
    }
    let mut k: usize = 0;
    assert(reversed_ledger(start.balance_changes, removed.take(0), account_id, height, now)
        =~= start.balance_changes);
    while k < found.len()
        invariant
            k <= found@.len(),
            start.wf(),
            removed.len() == found@.len(),
            forall|j: int| 0 <= j < found@.len() ==> (#[trigger] found@[j]) < start.outputs.len(),
            forall|j: int|
                0 <= j < found@.len() ==> removed[j] == start.outputs[#[trigger] found@[j] as int],
            next_change_id(start.balance_changes) + found@.len() <= i64::MAX + 1,
            db@ == (WalletState {
                balance_changes: reversed_ledger(
                    start.balance_changes,
                    removed.take(k as int),
                    account_id,
                    height,
                    now,
                ),
                ..start
            }),
        decreases found.len() - k,
    {
        proof {
            lemma_ledger_step(
                start.balance_changes,
                removed,
                account_id,
                height,
                now,
                k as int,
            );
        }
        assert(db.outputs@.len() == db@.outputs.len());
        let output_id: i64 = db.outputs[found[k]].id;
        let value: i64 = db.outputs[found[k]].value;
        assert(removed[k as int] == db.outputs@[found@[k as int] as int]@);
        let original = get_balance_change_id_by_output(db, output_id);
        if let Some(original_id) = original {
            mark_balance_change_as_reversed(db, original_id);
        }
        let change = reversal_of_output(account_id, output_id, value, height, now, original);
        let inserted = insert_balance_change(db, change);
        assert(inserted is Ok);
        k = k + 1;
    }
    assert(removed.take(k as int) =~= removed);
    update_rows(&mut db.outputs, &SoftDeletion { account_id, height, now });
    assert(db@.outputs =~= start.outputs.map_values(
        |row: OutputRecord| soft_deleted(row, account_id, height, now),
    ));
    proof {
        lemma_ledger_ids_rise(start.balance_changes, removed, account_id, height, now);
    }
    Ok(())
}

/// Removes an account's outputs that were mined at the given height or above it, as
/// [`soft_delete_outputs_at`] does, with the time that the clock shows.
pub fn soft_delete_outputs_from_height(db: &mut WalletDb, account_id: i64, height: u64) -> (r:
    WalletDbResult<()>)
    requires
        old(db)@.wf(),
    ensures
        exists|now: UtcTime|
            now.wf() && #[trigger] soft_deletion(
                old(db)@,
                final(db)@,
                account_id,
                height,
                now,
                r,
            ),
        final(db)@.wf(),
{
    let now = utc_now();
    soft_delete_outputs_at(db, account_id, height, now)
}

} // verus!
