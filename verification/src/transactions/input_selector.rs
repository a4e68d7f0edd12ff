//! Choosing the outputs that a transaction spends.
use crate::amounts::{
    amount_sum, lemma_net_sum_bound, lemma_net_sum_subset, lemma_sum_of_same_amounts, net_sum,
};
use crate::bindings::{
    best_selection, fee_of, search_selection, selected_facts, standard_output_size, transaction_fee,
    Selected, MAX_INPUTS, STANDARD_OUTPUT_SIZE,
};
use crate::db::error::WalletDbError;
use crate::db::outputs::{
    confirmation_height, decodable, fetch_unspent_outputs, output_facts, rows_read, spendable,
    stored_output, DbWalletOutput, DbWalletOutputFacts,
};
use crate::db::query::by_value_descending;
use crate::db::scanned_tip_blocks::{get_tip_height, tip_height};
use crate::db::tables::{OutputRecord, WalletDb, WalletState};
use crate::models::{saturating_sum, MicroMinotari};
use vstd::multiset::Multiset;
use vstd::prelude::*;

verus! {

/// Why no outputs could be chosen.
#[derive(Debug)]
pub enum SelectionError {
    /// The outputs could not be read.
    Db(WalletDbError),
    /// The size of an output could not be determined.
    OutputSize(tari_transaction_components::TransactionBuilderError),
    /// The outputs that can be spent do not pay for the transaction.
    InsufficientFunds,
}

/// The outputs that were chosen for a transaction.
#[derive(Debug)]
pub struct UtxoSelection {
    pub utxos: Vec<DbWalletOutput>,
    pub requires_change_output: bool,
    pub total_value: MicroMinotari,
    pub fee_without_change: MicroMinotari,
    pub fee_with_change: MicroMinotari,
}

/// What a [`UtxoSelection`] says.
#[verifier::ext_equal]
pub ghost struct UtxoSelectionFacts {
    pub utxos: Seq<DbWalletOutputFacts>,
    pub requires_change_output: bool,
    pub total_value: MicroMinotari,
    pub fee_without_change: MicroMinotari,
    pub fee_with_change: MicroMinotari,
}

impl View for UtxoSelection {
    type V = UtxoSelectionFacts;

    open spec fn view(&self) -> UtxoSelectionFacts {
        UtxoSelectionFacts {
            utxos: output_facts(self.utxos@),
            requires_change_output: self.requires_change_output,
            total_value: self.total_value,
            fee_without_change: self.fee_without_change,
            fee_with_change: self.fee_with_change,
        }
    }
}

/// The parts of the fee for a transaction.
#[derive(Clone, Copy, Debug, PartialEq, Eq, Structural)]
pub struct Fees {
    /// What the kernel and the payment outputs cost.
    pub output_fee: MicroMinotari,
    /// What a change output costs.
    pub change_fee: MicroMinotari,
    /// What each input costs.
    pub fee_per_input: MicroMinotari,
}

/// The size of all payment outputs together, as far as a machine word can hold it.
pub open spec fn joint_size(num_outputs: usize, output_size: usize) -> usize {
    if output_size * num_outputs <= usize::MAX {
        (output_size * num_outputs) as usize
    } else {
        usize::MAX
    }
}

/// The parts of the fee for a transaction with one kernel and the given payment outputs.
pub open spec fn fees_for(
    num_outputs: usize,
    fee_per_gram: MicroMinotari,
    output_size: usize,
) -> Fees {
    Fees {
        output_fee: fee_of(
            fee_per_gram,
            1,
            0,
            num_outputs as nat,
            joint_size(num_outputs, output_size) as nat,
        ),
        change_fee: fee_of(fee_per_gram, 0, 0, 1, output_size as nat),
        fee_per_input: fee_of(fee_per_gram, 0, 1, 0, 0),
    }
}

/// Works out the parts of the fee for a transaction.
pub fn estimate_fees(num_outputs: usize, fee_per_gram: MicroMinotari, output_size: usize) -> (r:
    Fees)
    ensures
        r == fees_for(num_outputs, fee_per_gram, output_size),
{
    let size: usize = match output_size.checked_mul(num_outputs) {
        Some(size) => size,
        None => usize::MAX,
    };
    Fees {
        output_fee: transaction_fee(fee_per_gram, 1, 0, num_outputs, size),
        change_fee: transaction_fee(fee_per_gram, 0, 0, 1, output_size),
        fee_per_input: transaction_fee(fee_per_gram, 0, 1, 0, 0),
    }
}

/// What some outputs are worth, one by one.
pub open spec fn output_values(outputs: Seq<DbWalletOutputFacts>) -> Seq<u64> {
    outputs.map_values(|o: DbWalletOutputFacts| o.output.value.0)
}

/// The outputs that stand for some wanted amounts: going through the candidates in order, each that
/// is worth an amount that is still wanted.
pub open spec fn picked(candidates: Seq<DbWalletOutputFacts>, wanted: Multiset<u64>) -> Seq<
    DbWalletOutputFacts,
>
    decreases candidates.len(),
{
    if candidates.len() == 0 {
        Seq::empty()
    } else {
        let value = candidates.first().output.value.0;
        if wanted.count(value) > 0 {
            seq![candidates.first()] + picked(candidates.drop_first(), wanted.remove(value))
        } else {
            picked(candidates.drop_first(), wanted)
        }
    }
}

/// The selection that a search result stands for.
pub open spec fn selection_of(
    candidates: Seq<DbWalletOutputFacts>,
    amount: MicroMinotari,
    change_fee: MicroMinotari,
    found: (Seq<u64>, u64, u64, bool),
) -> UtxoSelectionFacts {
    let fee = MicroMinotari(
        if found.2 >= amount.0 {
            (found.2 - amount.0) as u64
        } else {
            0
        },
    );
    UtxoSelectionFacts {
        utxos: picked(candidates, found.0.to_multiset()),
        requires_change_output: found.3,
        total_value: MicroMinotari(found.1),
        fee_without_change: fee,
        fee_with_change: saturating_sum(fee, change_fee),
    }
}

fn position(values: &Vec<u64>, wanted: u64) -> (r: Option<usize>)
    ensures
        match r {
            Some(i) => i < values@.len() && values@[i as int] == wanted,
            None => !values@.contains(wanted),
        },
{
    let mut i: usize = 0;
    while i < values.len()
        invariant
            i <= values@.len(),
            forall|j: int| 0 <= j < i ==> values@[j] != wanted,
        decreases values.len() - i,
    {
        if values[i] == wanted {
            return Some(i);
        }
        i = i + 1;
    }
    None
}

/// Turns what the search for inputs found into a selection of outputs.
pub fn select_found(
    candidates: &Vec<DbWalletOutput>,
    amount: MicroMinotari,
    change_fee: MicroMinotari,
    found: Option<Selected>,
) -> (r: Result<UtxoSelection, SelectionError>)
    ensures
        match found {
            Some(_) => r is Ok && r->Ok_0@ == selection_of(
                output_facts(candidates@),
                amount,
                change_fee,
                selected_facts(found)->0,
            ),
            None => r is Err && r->Err_0 is InsufficientFunds,
        },
{
    let (values, total, target, change) = match found {
        Some(selected) => selected,
        None => return Err(SelectionError::InsufficientFunds),
    };
    let ghost facts = output_facts(candidates@);
    let ghost wanted = values@.to_multiset();
    let mut remaining = values;
    let mut utxos: Vec<DbWalletOutput> = Vec::new();
    let mut i: usize = 0;
    proof {
        assert(facts.skip(0) =~= facts);
        assert(output_facts(utxos@) + picked(facts, wanted) =~= picked(facts, wanted));
    }
    while i < candidates.len()
        invariant
            i <= candidates@.len(),
            facts == output_facts(candidates@),
            output_facts(utxos@) + picked(facts.skip(i as int), remaining@.to_multiset()) == picked(
                facts,
                wanted,
            ),
        decreases candidates.len() - i,
    {
        broadcast use vstd::seq_lib::group_to_multiset_ensures;

        let value: u64 = candidates[i].value().as_u64();
        let ghost before = output_facts(utxos@);
        assert(facts.skip(i as int).first() == candidates@[i as int]@);
        assert(facts.skip(i as int).drop_first() =~= facts.skip(i + 1));
        if let Some(j) = position(&remaining, value) {
            remaining.remove(j);
            utxos.push(candidates[i].clone());
            assert(output_facts(utxos@) =~= before.push(facts[i as int]));
            assert(before + (seq![facts[i as int]] + picked(
                facts.skip(i + 1),
                remaining@.to_multiset(),
            )) =~= before.push(facts[i as int]) + picked(
                facts.skip(i + 1),
                remaining@.to_multiset(),
            ));
        }
        i = i + 1;
    }
    assert(facts.skip(i as int).len() == 0);
    assert(output_facts(utxos@) + picked(facts.skip(i as int), remaining@.to_multiset())
        =~= output_facts(utxos@));
    let fee = MicroMinotari(target.saturating_sub(amount.as_u64()));
    let selection = UtxoSelection {
        utxos,
        requires_change_output: change,
        total_value: MicroMinotari(total),
        fee_without_change: fee,
        fee_with_change: fee.saturating_add(change_fee),
    };
    Ok(selection)
}

/// Among the candidates there is an output for every wanted amount.
pub proof fn lemma_picked_values(candidates: Seq<DbWalletOutputFacts>, wanted: Multiset<u64>)
    requires
        wanted.subset_of(output_values(candidates).to_multiset()),
    ensures
        output_values(picked(candidates, wanted)).to_multiset() == wanted,
    decreases candidates.len(),
{
    broadcast use vstd::seq_lib::group_to_multiset_ensures;

    let values = output_values(candidates);
    if candidates.len() == 0 {
        assert(values.to_multiset().len() == 0);
        assert(output_values(picked(candidates, wanted)) =~= values);
        assert(wanted =~= values.to_multiset());
    } else {
        let rest = candidates.drop_first();
        let value = candidates.first().output.value.0;
        assert(values =~= output_values(rest).insert(0, value));
        vstd::seq_lib::to_multiset_insert(output_values(rest), 0, value);
        if wanted.count(value) > 0 {
            let fewer = wanted.remove(value);
            assert(fewer.subset_of(output_values(rest).to_multiset()));
            lemma_picked_values(rest, fewer);
            let tail = output_values(picked(rest, fewer));
            assert(output_values(picked(candidates, wanted)) =~= tail.insert(0, value));
            vstd::seq_lib::to_multiset_insert(tail, 0, value);
            assert(fewer.insert(value) =~= wanted);
        } else {
            assert(wanted.subset_of(output_values(rest).to_multiset()));
            lemma_picked_values(rest, wanted);
        }
    }
}

/// The rows of the outputs that an account may spend in a transaction, the most valuable first:
/// those that lie deep enough below the greatest height that has been scanned.
pub open spec fn candidate_rows(state: WalletState, account_id: i64, confirmation_window: u64) -> Seq<
    OutputRecord,
> {
    let tip = tip_height(state.scanned_tip_blocks, account_id);
    by_value_descending(
        state.outputs.filter(
            spendable(account_id, confirmation_height(tip, confirmation_window), tip),
        ),
    )
}

/// The outputs that some rows store.
pub open spec fn stored_outputs(rows: Seq<OutputRecord>) -> Seq<DbWalletOutputFacts> {
    rows.map_values(|r: OutputRecord| stored_output(r))
}

/// What the search for inputs finds among the candidates. Where the amount and the fee of its
/// outputs are more than any sum can be, it finds nothing.
pub open spec fn search_among(
    candidates: Seq<DbWalletOutputFacts>,
    amount: MicroMinotari,
    fees: Fees,
) -> Option<(Seq<u64>, u64, u64, bool)> {
    if amount.0 + fees.output_fee.0 > u64::MAX {
        None
    } else {
        best_selection(
            output_values(candidates),
            amount.0,
            fees.output_fee.0,
            fees.change_fee.0,
            fees.fee_per_input.0,
        )
    }
}

/// Whether a selection pays for an amount and for its own fee, and asks for a change output exactly
/// where it also pays for that output and for spending it later.
pub open spec fn covers(s: UtxoSelectionFacts, amount: MicroMinotari, fees: Fees) -> bool {
    let fee = fees.output_fee.0 + s.utxos.len() * fees.fee_per_input.0;
    &&& s.total_value.0 == amount_sum(output_values(s.utxos))
    &&& s.fee_without_change.0 == fee
    &&& s.total_value.0 >= amount.0 + fee
    &&& s.requires_change_output <==> s.total_value.0 > amount.0 + fee + fees.change_fee.0
        + fees.fee_per_input.0
    &&& s.requires_change_output ==> s.fee_with_change.0 == fee + fees.change_fee.0
}

/// Whether the candidates are few enough, and their worth small enough, for every sum of a search
/// to stay in range.
pub open spec fn searchable(
    candidates: Seq<DbWalletOutputFacts>,
    amount: MicroMinotari,
    fees: Fees,
) -> bool {
    &&& candidates.len() <= MAX_INPUTS
    &&& amount_sum(output_values(candidates)) <= u64::MAX
    &&& amount.0 + fees.output_fee.0 + candidates.len() * fees.fee_per_input.0 <= u64::MAX
}

/// Whether the candidates, less a fee for each that is worth its fee, come to the amount and the fee
/// of its outputs.
pub open spec fn affordable(
    candidates: Seq<DbWalletOutputFacts>,
    amount: MicroMinotari,
    fees: Fees,
) -> bool {
    net_sum(output_values(candidates), fees.fee_per_input.0) >= amount.0 + fees.output_fee.0
}

/// Whether the wallet outputs of all rows can be read.
pub open spec fn readable(rows: Seq<OutputRecord>) -> bool {
    forall|k: int| 0 <= k < rows.len() ==> decodable(#[trigger] rows[k])
}

/// The selection for an amount among some rows, if there is one.
pub open spec fn selection_among(rows: Seq<OutputRecord>, amount: MicroMinotari, fees: Fees) -> Option<
    UtxoSelectionFacts,
> {
    let candidates = stored_outputs(rows);
    match search_among(candidates, amount, fees) {
        Some(found) => Some(selection_of(candidates, amount, fees.change_fee, found)),
        None => None,
    }
}

/// What choosing outputs for an amount comes to.
pub open spec fn selection_made(
    rows: Seq<OutputRecord>,
    amount: MicroMinotari,
    fees: Fees,
    result: Result<UtxoSelection, SelectionError>,
) -> bool {
    match result {
        Ok(selection) => readable(rows) && selection_among(rows, amount, fees) == Some(selection@),
        Err(SelectionError::Db(e)) => rows_read(rows, Err(e)),
        Err(SelectionError::InsufficientFunds) => readable(rows) && selection_among(
            rows,
            amount,
            fees,
        ) is None,
        Err(SelectionError::OutputSize(_)) => false,
    }
}

/// Chooses outputs of an account.
#[derive(Clone, Copy, Debug)]
pub struct InputSelector {
    pub account_id: i64,
    pub confirmation_window: u64,
}

/// What choosing outputs of an account for a transaction comes to: the selection, which pays for the
/// amount and the fees; or an error, and a lack of funds only where the funds really do not pay.
pub open spec fn selection_outcome(
    state: WalletState,
    selector: InputSelector,
    amount: MicroMinotari,
    num_outputs: usize,
    fee_per_gram: MicroMinotari,
    estimated_output_size: Option<usize>,
    result: Result<UtxoSelection, SelectionError>,
) -> bool {
    let rows = candidate_rows(state, selector.account_id, selector.confirmation_window);
    let fees = fees_for(num_outputs, fee_per_gram, output_size(estimated_output_size));
    let candidates = stored_outputs(rows);
    &&& selection_made(rows, amount, fees, result)
    &&& result is Ok ==> covers(result->Ok_0@, amount, fees)
    &&& result is Ok ==> affordable(candidates, amount, fees)
    &&& result is Err && result->Err_0 is InsufficientFunds && searchable(candidates, amount, fees)
        ==> !affordable(candidates, amount, fees)
}

impl InputSelector {
    /// A selector for an account that leaves alone the outputs that lie less than
    /// `confirmation_window` blocks below the greatest scanned height.
    pub fn new(account_id: i64, confirmation_window: u64) -> (r: InputSelector)
        ensures
            r == (InputSelector { account_id, confirmation_window }),
    {
        InputSelector { account_id, confirmation_window }
    }

    /// Chooses outputs that pay for an amount and for the fee of the transaction that sends it.
    /// Where no size of an output is given, that of a standard output is taken.
    pub fn fetch_unspent_outputs(
        &self,
        db: &WalletDb,
        amount: MicroMinotari,
        num_outputs: usize,
        fee_per_gram: MicroMinotari,
        estimated_output_size: Option<usize>,
    ) -> (r: Result<UtxoSelection, SelectionError>)
        ensures
            selection_outcome(
                db@,
                *self,
                amount,
                num_outputs,
                fee_per_gram,
                estimated_output_size,
                r,
            ),
    {
        let tip: u64 = get_tip_height(db, self.account_id);
        let lowest: u64 = tip.saturating_sub(self.confirmation_window);
        let candidates = match fetch_unspent_outputs(db, self.account_id, lowest, tip) {
            Ok(outputs) => outputs,
            Err(e) => return Err(SelectionError::Db(e)),
        };
        let size: usize = match estimated_output_size {
            Some(size) => size,
            None => match standard_output_size() {
                Ok(size) => size,
                Err(e) => return Err(SelectionError::OutputSize(e)),
            },
        };
        let fees = estimate_fees(num_outputs, fee_per_gram, size);
        find_selection(&candidates, amount, fees)
    }
}

/// The size of an output that a fee is worked out for.
pub open spec fn output_size(estimated: Option<usize>) -> usize {
    match estimated {
        Some(size) => size,
        None => STANDARD_OUTPUT_SIZE,
    }
}

/// Searches the candidates for outputs that pay for an amount and for the fees.
fn find_selection(candidates: &Vec<DbWalletOutput>, amount: MicroMinotari, fees: Fees) -> (r: Result<
    UtxoSelection,
    SelectionError,
>)
    ensures
        ({
            let facts = output_facts(candidates@);
            let found = search_among(facts, amount, fees);
            match r {
                Ok(selection) => {
                    &&& found is Some
                    &&& selection@ == selection_of(facts, amount, fees.change_fee, found->0)
                    &&& covers(selection@, amount, fees)
                    &&& affordable(facts, amount, fees)
                },
                Err(SelectionError::InsufficientFunds) => {
                    &&& found is None
                    &&& searchable(facts, amount, fees) ==> !affordable(facts, amount, fees)
                },
                Err(_) => false,
            }
        }),
{
    let ghost facts = output_facts(candidates@);
    if amount.as_u64() > u64::MAX - fees.output_fee.as_u64() {
        return Err(SelectionError::InsufficientFunds);
    }
    let mut values: Vec<u64> = Vec::new();
    let mut i: usize = 0;
    while i < candidates.len()
        invariant
            i <= candidates@.len(),
            facts == output_facts(candidates@),
            values@.len() == i,
            forall|j: int| 0 <= j < i ==> #[trigger] values@[j] == facts[j].output.value.0,
        decreases candidates.len() - i,
    {
        values.push(candidates[i].value().as_u64());
        i = i + 1;
    }
    assert(values@ =~= output_values(facts));
    let found = search_selection(
        values,
        amount.as_u64(),
        fees.output_fee.as_u64(),
        fees.change_fee.as_u64(),
        fees.fee_per_input.as_u64(),
    );
    proof {
        if found is Some {
            let sel = selected_facts(found)->0;
            let chosen = picked(facts, sel.0.to_multiset());
            lemma_picked_values(facts, sel.0.to_multiset());
            lemma_sum_of_same_amounts(output_values(chosen), sel.0);
            lemma_net_sum_subset(sel.0, output_values(facts), fees.fee_per_input.0);
            lemma_net_sum_bound(sel.0, fees.fee_per_input.0);
            assert(chosen.len() == sel.0.len());
            assert(sel.0.len() * fees.fee_per_input.0 >= 0) by (nonlinear_arith);
        }
    }
    select_found(candidates, amount, fees.change_fee, found)
}

} // verus!
