//! The ledger of changes to the accounts' balances.
use crate::db::error::{WalletDbError, WalletDbResult};
use crate::db::tables::{
    change_records, next_change_id, BalanceChange, BalanceChangeRow, ChangeRecord, WalletDb,
    WalletState,
};
use vstd::prelude::*;

verus! {

/// Whether a ledger entry records that an output was found; entries that take such a record back
/// do not count.
pub open spec fn is_original(c: (i64, ChangeRecord), output_id: i64) -> bool {
    c.1.caused_by_output_id == Some(output_id) && !c.1.is_reversal
}

/// The id of the first ledger entry that records that the output was found, if there is one.
pub open spec fn original_change(changes: Seq<(i64, ChangeRecord)>, output_id: i64) -> Option<i64>
    decreases changes.len(),
{
    if changes.len() == 0 {
        None
    } else {
        match original_change(changes.drop_last(), output_id) {
            Some(id) => Some(id),
            None => if is_original(changes.last(), output_id) {
                Some(changes.last().0)
            } else {
                None
            },
        }
    }
}

proof fn lemma_original_in_front(changes: Seq<(i64, ChangeRecord)>, output_id: i64, n: int)
    requires
        0 <= n <= changes.len(),
        original_change(changes.take(n), output_id) is Some,
    ensures
        original_change(changes, output_id) == original_change(changes.take(n), output_id),
    decreases changes.len() - n,
{
    if n == changes.len() {
        assert(changes.take(n) =~= changes);
    } else {
        assert(changes.take(n + 1).drop_last() =~= changes.take(n));
        lemma_original_in_front(changes, output_id, n + 1);
    }
}

/// The entry that was found stands in the ledger.
pub(crate) proof fn lemma_original_stands(changes: Seq<(i64, ChangeRecord)>, output_id: i64)
    requires
        original_change(changes, output_id) is Some,
    ensures
        exists|i: int|
            0 <= i < changes.len() && (#[trigger] changes[i]).0 == original_change(
                changes,
                output_id,
            )->0,
    decreases changes.len(),
{
    if original_change(changes.drop_last(), output_id) is Some {
        lemma_original_stands(changes.drop_last(), output_id);
        let i = choose|i: int|
            0 <= i < changes.len() - 1 && (#[trigger] changes.drop_last()[i]).0 == original_change(
                changes.drop_last(),
                output_id,
            )->0;
        assert(changes[i] == changes.drop_last()[i]);
    } else {
        assert(changes[changes.len() - 1].0 == original_change(changes, output_id)->0);
    }
}

/// Finds the ledger entry that records that an output was found.
pub fn get_balance_change_id_by_output(db: &WalletDb, output_id: i64) -> (r: Option<i64>)
    ensures
        r == original_change(db@.balance_changes, output_id),
{
    let ghost changes = db@.balance_changes;
    let mut i: usize = 0;
    assert(changes.take(0) =~= Seq::empty());
    while i < db.balance_changes.len()
        invariant
            i <= db.balance_changes@.len(),
            changes == change_records(db.balance_changes@),
            changes == db@.balance_changes,
            original_change(changes.take(i as int), output_id) is None,
        decreases db.balance_changes.len() - i,
    {
        let row = &db.balance_changes[i];
        assert(changes[i as int] == row@);
        assert(changes.take(i + 1).drop_last() =~= changes.take(i as int));
        assert(changes.take(i + 1).last() == changes[i as int]);
        let caused = match row.change.caused_by_output_id {
            Some(id) => id == output_id,
            None => false,
        };
        if caused && !row.change.is_reversal {
            proof {
                lemma_original_in_front(changes, output_id, i + 1);
            }
            return Some(row.id);
        }
        i = i + 1;
    }
    assert(changes.take(i as int) =~= changes);
    None
}

/// A ledger entry once the entry with the given id has been marked as reversed.
pub open spec fn marked_reversed(c: (i64, ChangeRecord), id: i64) -> (i64, ChangeRecord) {
    if c.0 == id {
        (c.0, ChangeRecord { is_reversed: true, ..c.1 })
    } else {
        c
    }
}

/// Marks a ledger entry as reversed.
pub fn mark_balance_change_as_reversed(db: &mut WalletDb, id: i64)
    ensures
        final(db)@ == (WalletState {
            balance_changes: old(db)@.balance_changes.map_values(
                |c: (i64, ChangeRecord)| marked_reversed(c, id),
            ),
            ..old(db)@
        }),
        old(db)@.wf() ==> final(db)@.wf(),
{
    let ghost start = db@;
    let mut i: usize = 0;
    while i < db.balance_changes.len()
        invariant
            i <= db.balance_changes@.len(),
            db@ == (WalletState { balance_changes: change_records(db.balance_changes@), ..start }),
            db.balance_changes@.len() == start.balance_changes.len(),
            forall|k: int|
                0 <= k < i ==> (#[trigger] db.balance_changes@[k])@ == marked_reversed(
                    start.balance_changes[k],
                    id,
                ),
            forall|k: int|
                i <= k < start.balance_changes.len() ==> (#[trigger] db.balance_changes@[k])@
                    == start.balance_changes[k],
        decreases db.balance_changes.len() - i,
    {
        let ghost before = db.balance_changes@;
        if db.balance_changes[i].id == id {
            db.balance_changes[i].change.is_reversed = true;
        }
        assert(db.balance_changes@ == before.update(i as int, db.balance_changes@[i as int]));
        i = i + 1;
    }
    assert(db@.balance_changes =~= start.balance_changes.map_values(
        |c: (i64, ChangeRecord)| marked_reversed(c, id),
    ));
}

/// Adds an entry to the ledger and gives its id.
pub fn insert_balance_change(db: &mut WalletDb, change: BalanceChange) -> (r: WalletDbResult<i64>)
    ensures
        match r {
            Ok(id) => {
                &&& id == next_change_id(old(db)@.balance_changes)
                &&& final(db)@ == (WalletState {
                    balance_changes: old(db)@.balance_changes.push((id, change@)),
                    ..old(db)@
                })
            },
            Err(WalletDbError::TableFull) => next_change_id(old(db)@.balance_changes) > i64::MAX
                && final(db)@ == old(db)@,
            Err(_) => false,
        },
        old(db)@.wf() ==> final(db)@.wf(),
{
    let n: usize = db.balance_changes.len();
    let mut id: i64 = 1;
    if n > 0 {
        let last: i64 = db.balance_changes[n - 1].id;
        assert(db@.balance_changes.last() == db.balance_changes@[n - 1]@);
        if last == i64::MAX {
            return Err(WalletDbError::TableFull);
        }
        id = last + 1;
    }
    let row = BalanceChangeRow { id, change };
    let ghost before = db.balance_changes@;
    db.balance_changes.push(row);
    assert(change_records(db.balance_changes@) =~= change_records(before).push((id, change@)));
    assert(db@ =~= (WalletState {
        balance_changes: old(db)@.balance_changes.push((id, change@)),
        ..old(db)@
    }));
    Ok(id)
}

} // verus!
