//! The calls into other crates. Each function here makes one such call; its contract says what
//! the rest of the library relies on and is taken from the called function's source.
use crate::amounts::{amount_sum, net_sum};
use crate::models::{representable, FixedHash, MicroMinotari, UtcTime};
use tari_transaction_components::utxo_selection::branch_and_bound::branch_bound_builder::BranchAndBoundUtxoSelectionBuilder;
use vstd::prelude::*;

verus! {

/// The error that `serde_json` reports for a text that it cannot decode.
#[verifier::external_type_specification]
#[verifier::external_body]
pub struct ExJsonError(serde_json::Error);

/// The error that `tari_transaction_components` reports when an output cannot be measured.
#[verifier::external_type_specification]
#[verifier::external_body]
pub struct ExTransactionBuilderError(tari_transaction_components::TransactionBuilderError);

/// The 64-bit transaction id that belongs to a view key and an output hash: the first eight bytes
/// of a keyed hash of the output hash.
pub uninterp spec fn deterministic_tx_id(view_key: Seq<u8>, output_hash: Seq<u8>) -> u64;

/// Calls `tari_common_types::transaction::TxId::new_deterministic`, whose result is fixed by the
/// key and the hash.
#[verifier::external_body]
pub(crate) fn new_deterministic_tx_id(view_key: &[u8], output_hash: &FixedHash) -> (id: u64)
    ensures
        id == deterministic_tx_id(view_key@, output_hash@),
{
    tari_common_types::transaction::TxId::new_deterministic(view_key, &output_hash.0).as_u64()
}

/// What the JSON text of a wallet output says of the output: its value, its maturity height and
/// its hash. `None` where the text is not the JSON of a wallet output.
pub uninterp spec fn decoded_wallet_output(json: Seq<char>) -> Option<(u64, u64, Seq<u8>)>;

/// Calls `serde_json::from_str` for a `tari_transaction_components` wallet output and reads the
/// value, the maturity and the hash off it. Whether the text can be decoded, and what it then
/// holds, is fixed by the text.
#[verifier::external_body]
pub(crate) fn decode_wallet_output(json: &str) -> (r: Result<
    (MicroMinotari, u64, FixedHash),
    serde_json::Error,
>)
    ensures
        match r {
            Ok((value, maturity, hash)) => decoded_wallet_output(json@) == Some(
                (value.0, maturity, hash@),
            ),
            Err(_) => decoded_wallet_output(json@) is None,
        },
{
    serde_json::from_str::<tari_transaction_components::transaction_components::WalletOutput>(json)
        .map(|o| (
            MicroMinotari(o.value().as_u64()),
            o.features().maturity,
            FixedHash(o.output_hash().into_array()),
        ))
}

/// Calls `chrono::DateTime::<Utc>::from_timestamp` with no nanoseconds. It gives the point in time
/// that lies the given number of seconds after 1 January 1970, where the calendar reaches that far,
/// and nothing elsewhere.
#[verifier::external_body]
pub(crate) fn utc_from_timestamp(seconds: i64) -> (r: Option<UtcTime>)
    ensures
        r == if representable(seconds as int) {
            Some(UtcTime { seconds, nanos: 0 })
        } else {
            None
        },
{
    chrono::DateTime::<chrono::Utc>::from_timestamp(seconds, 0).map(
        |t| UtcTime { seconds: t.timestamp(), nanos: t.timestamp_subsec_nanos() },
    )
}

/// Calls `chrono::Utc::now`. Of the machine's clock nothing is known but that it shows a point in
/// time that the calendar holds.
#[verifier::external_body]
pub(crate) fn utc_now() -> (now: UtcTime)
    ensures
        now.wf(),
{
    let t = chrono::Utc::now();
    UtcTime { seconds: t.timestamp(), nanos: t.timestamp_subsec_nanos() }
}

/// Adds `chrono::Duration::seconds` to a `chrono::DateTime<Utc>`. The addition panics where the sum
/// leaves the calendar, so the sum must lie in it; the nanoseconds stay as they are.
#[verifier::external_body]
pub(crate) fn utc_plus_seconds(t: UtcTime, seconds: i64) -> (r: UtcTime)
    requires
        t.wf(),
        representable(t.seconds + seconds),
    ensures
        r.seconds == t.seconds + seconds,
        r.nanos == t.nanos,
{
    let start = chrono::DateTime::<chrono::Utc>::from_timestamp(t.seconds, t.nanos).unwrap();
    let end = start + chrono::Duration::seconds(seconds);
    UtcTime { seconds: end.timestamp(), nanos: end.timestamp_subsec_nanos() }
}

/// The lower-case hexadecimal digit for a number below sixteen.
pub open spec fn hex_digit(n: u8) -> char {
    if n < 10 {
        (('0' as u32) + n) as char
    } else {
        (('a' as u32) + (n - 10)) as char
    }
}

/// A byte string in hexadecimal, two digits to the byte, the high half first.
pub open spec fn hex_text(data: Seq<u8>) -> Seq<char> {
    Seq::new(
        2 * data.len(),
        |i: int|
            if i % 2 == 0 {
                hex_digit(data[i / 2] / 16)
            } else {
                hex_digit(data[i / 2] % 16)
            },
    )
}

/// Calls `hex::encode`, which writes a byte string in lower-case hexadecimal.
#[verifier::external_body]
pub(crate) fn hex_encode(data: &[u8]) -> (r: String)
    ensures
        r@ == hex_text(data@),
{
    hex::encode(data)
}

/// Whether a character is a lower-case hexadecimal digit.
pub open spec fn is_hex_digit(c: char) -> bool {
    '0' <= c <= '9' || 'a' <= c <= 'f'
}

/// Whether a text has the form of a random identifier: 36 characters, hyphens at four fixed
/// places, the digit `4` and one of `8`, `9`, `a`, `b` at two others, and lower-case hexadecimal
/// digits everywhere else.
pub open spec fn is_random_id(s: Seq<char>) -> bool {
    &&& s.len() == 36
    &&& forall|i: int|
        0 <= i < 36 ==> if i == 8 || i == 13 || i == 18 || i == 23 {
            #[trigger] s[i] == '-'
        } else {
            is_hex_digit(s[i])
        }
    &&& s[14] == '4'
    &&& s[19] == '8' || s[19] == '9' || s[19] == 'a' || s[19] == 'b'
}

/// Calls `uuid::Uuid::new_v4` and writes the identifier as text. The identifier is random: only its
/// form is known.
#[verifier::external_body]
pub(crate) fn new_random_id() -> (r: String)
    ensures
        is_random_id(r@),
{
    uuid::Uuid::new_v4().to_string()
}

/// A number, or the largest `u64` where the number is larger.
pub open spec fn capped(n: int) -> u64 {
    if n <= u64::MAX {
        n as u64
    } else {
        u64::MAX
    }
}

/// The weight in grams of a transaction with the given numbers of kernels, inputs and outputs and
/// the given number of bytes in the features and scripts of its outputs.
pub open spec fn weight(kernels: nat, inputs: nat, outputs: nat, script_bytes: nat) -> u64 {
    capped((10 * kernels + 8 * inputs + 53 * outputs + script_bytes / 16) as int)
}

/// The fee for a transaction of the given make-up.
pub open spec fn fee_of(
    fee_per_gram: MicroMinotari,
    kernels: nat,
    inputs: nat,
    outputs: nat,
    script_bytes: nat,
) -> MicroMinotari {
    MicroMinotari(capped(weight(kernels, inputs, outputs, script_bytes) * fee_per_gram.0))
}

/// Calls `tari_transaction_components::fee::Fee::calculate` with the latest weights: ten grams for a
/// kernel, eight for an input, fifty-three for an output and one for every sixteen bytes of features
/// and scripts. The weight and the fee stop at the largest `u64`.
#[verifier::external_body]
pub(crate) fn transaction_fee(
    fee_per_gram: MicroMinotari,
    kernels: usize,
    inputs: usize,
    outputs: usize,
    script_bytes: usize,
) -> (fee: MicroMinotari)
    ensures
        fee == fee_of(
            fee_per_gram,
            kernels as nat,
            inputs as nat,
            outputs as nat,
            script_bytes as nat,
        ),
{
    let weights = tari_transaction_components::weight::TransactionWeight::latest();
    let fee = tari_transaction_components::fee::Fee::new(weights).calculate(
        fee_per_gram.0.into(),
        kernels,
        inputs,
        outputs,
        script_bytes,
    );
    MicroMinotari(fee.as_u64())
}

/// The number of bytes that the features, the script and the covenant of a standard output take up
/// in a fee, rounded up to whole grams.
pub const STANDARD_OUTPUT_SIZE: usize = 64;

/// Calls `tari_transaction_components::fee::recipient_output_features_and_scripts_size` for an
/// output with default features, default script, default covenant and no memo. These serialise to
/// 16, 34, 1 and 0 bytes, and the sum is rounded up to a multiple of sixteen; counting the bytes
/// never fails.
#[verifier::external_body]
pub(crate) fn standard_output_size() -> (r: Result<
    usize,
    tari_transaction_components::TransactionBuilderError,
>)
    ensures
        r is Ok,
        r->Ok_0 == STANDARD_OUTPUT_SIZE,
{
    tari_transaction_components::fee::recipient_output_features_and_scripts_size(
        &tari_transaction_components::weight::TransactionWeight::latest(),
        &tari_transaction_components::transaction_components::OutputFeatures::default(),
        &tari_script::TariScript::default(),
        &tari_transaction_components::transaction_components::covenants::Covenant::default(),
        &tari_transaction_components::transaction_components::MemoField::new_empty(),
    )
}

/// What the search for inputs finds: the selected amounts, their sum, what they have to pay for
/// without change, and whether change is given.
pub type Selected = (Vec<u64>, u64, u64, bool);

/// What a found selection says.
pub open spec fn selected_facts(found: Option<Selected>) -> Option<(Seq<u64>, u64, u64, bool)> {
    match found {
        Some((values, total, target, change)) => Some((values@, total, target, change)),
        None => None,
    }
}

/// The selection that the branch-and-bound search ends with: of all amounts that are on offer, some
/// that pay for a target, for the fee of the outputs and for a fee for each selected amount.
pub uninterp spec fn best_selection(
    values: Seq<u64>,
    target: u64,
    output_fee: u64,
    change_fee: u64,
    fee_per_input: u64,
) -> Option<(Seq<u64>, u64, u64, bool)>;

/// Whether a selection takes only what is on offer, reports its sum and its target rightly, pays
/// for the target, and gives change exactly where the rest is worth more than it costs to keep.
pub open spec fn pays(
    found: (Seq<u64>, u64, u64, bool),
    values: Seq<u64>,
    target: u64,
    output_fee: u64,
    change_fee: u64,
    fee_per_input: u64,
) -> bool {
    &&& found.0.to_multiset().subset_of(values.to_multiset())
    &&& found.1 == amount_sum(found.0)
    &&& found.2 == target + output_fee + found.0.len() * fee_per_input
    &&& found.1 >= found.2
    &&& found.3 <==> found.1 > found.2 + change_fee + fee_per_input
}

/// The most inputs that a transaction can have.
pub const MAX_INPUTS: usize = 12_500;

/// Calls the branch-and-bound search of `tari_transaction_components::utxo_selection` with its
/// default limits. What it ends with is fixed by the arguments. A selection that it finds pays for
/// the target. It finds one wherever the amounts, less a fee for each that is worth its fee, come to
/// the target and the output fee, there are no more of them than a transaction can have inputs, and
/// no sum overflows: its first path adds one amount after the other until they pay.
#[verifier::external_body]
pub(crate) fn search_selection(
    values: Vec<u64>,
    target: u64,
    output_fee: u64,
    change_fee: u64,
    fee_per_input: u64,
) -> (r: Option<Selected>)
    requires
        target + output_fee <= u64::MAX,
    ensures
        selected_facts(r) == best_selection(
            values@,
            target,
            output_fee,
            change_fee,
            fee_per_input,
        ),
        r is Some ==> pays(
            selected_facts(r)->0,
            values@,
            target,
            output_fee,
            change_fee,
            fee_per_input,
        ),
        r is None && values@.len() <= MAX_INPUTS && amount_sum(values@) <= u64::MAX && target
            + output_fee + values@.len() * fee_per_input <= u64::MAX ==> net_sum(
            values@,
            fee_per_input,
        ) < target + output_fee,
{
    let amounts = values.into_iter().map(tari_transaction_components::MicroMinotari::from).collect();
    let selector = BranchAndBoundUtxoSelectionBuilder::new(amounts)
        .with_target_amount(target.into())
        .with_total_output_fee(output_fee.into())
        .with_change_fee(change_fee.into())
        .with_fee_per_input(fee_per_input.into())
        .build()
        .ok()?;
    let found = selector.search()?;
    let selected = found.selected_utxos.iter().map(|v| v.as_u64()).collect();
    Some((selected, found.current_value.as_u64(), found.final_target.as_u64(), found.has_change))
}

} // verus!
