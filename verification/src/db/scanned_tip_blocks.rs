//! The blocks that the scan of the accounts' chains has reached.
use crate::db::tables::{ScannedTipBlock, WalletDb, WalletState};
use crate::models::FixedHash;
use vstd::prelude::*;

verus! {

/// The greatest height that has been scanned for an account; zero where nothing has.
pub open spec fn tip_height(blocks: Seq<ScannedTipBlock>, account_id: i64) -> u64
    decreases blocks.len(),
{
    if blocks.len() == 0 {
        0
    } else {
        let before = tip_height(blocks.drop_last(), account_id);
        if blocks.last().account_id == account_id && blocks.last().height > before {
            blocks.last().height
        } else {
            before
        }
    }
}

/// Records that the scan of an account has reached a block.
pub fn insert_scanned_tip_block(db: &mut WalletDb, account_id: i64, height: u64, hash: FixedHash)
    ensures
        final(db)@ == (WalletState {
            scanned_tip_blocks: old(db)@.scanned_tip_blocks.push(
                ScannedTipBlock { account_id, height, hash },
            ),
            ..old(db)@
        }),
        old(db)@.wf() ==> final(db)@.wf(),
{
    db.scanned_tip_blocks.push(ScannedTipBlock { account_id, height, hash });
}

/// Gives the greatest height that has been scanned for an account.
pub fn get_tip_height(db: &WalletDb, account_id: i64) -> (r: u64)
    ensures
        r == tip_height(db@.scanned_tip_blocks, account_id),
{
    let ghost blocks = db@.scanned_tip_blocks;
    let mut tip: u64 = 0;
    let mut i: usize = 0;
    assert(blocks.take(0) =~= Seq::empty());
    while i < db.scanned_tip_blocks.len()
        invariant
            i <= db.scanned_tip_blocks@.len(),
            blocks == db.scanned_tip_blocks@,
            tip == tip_height(blocks.take(i as int), account_id),
        decreases db.scanned_tip_blocks.len() - i,
    {
        assert(blocks.take(i + 1).drop_last() =~= blocks.take(i as int));
        let block = &db.scanned_tip_blocks[i];
        if block.account_id == account_id && block.height > tip {
            tip = block.height;
        }
        i = i + 1;
    }
    assert(blocks.take(i as int) =~= blocks);
    tip
}

} // verus!
