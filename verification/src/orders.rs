use vstd::prelude::*;

use crate::amount::Amount;
use crate::ids::{AccountId, AssetId, IntentId, RouteId, VaultId};

verus! {

#[derive(Copy, Clone, Debug, PartialEq, Eq, Structural)]
pub enum IntentStatus {
    Pending,
    Settled,
    Cancelled,
}

/// A request to move `amount_in` of the source asset along a route and pay at
/// least `min_amount_out` of the target asset to the recipient.
#[derive(Copy, Clone, Debug, PartialEq, Eq, Structural)]
pub struct TransferIntent {
    pub id: IntentId,
    pub owner: AccountId,
    pub recipient: AccountId,
    pub source_asset: AssetId,
    pub target_asset: AssetId,
    pub source_vault: VaultId,
    pub target_vault: VaultId,
    pub route: RouteId,
    pub amount_in: Amount,
    pub min_amount_out: Amount,
    pub deadline_slot: u64,
    pub nonce: u64,
}

/// An intent waiting in the ledger, with the quote it was accepted at.
#[derive(Copy, Clone, Debug, PartialEq, Eq, Structural)]
pub struct QueuedIntent {
    pub intent: TransferIntent,
    pub quoted_amount_out: Amount,
    pub quoted_fee: Amount,
    pub created_slot: u64,
    pub status: IntentStatus,
}

impl QueuedIntent {
    /// A newly queued intent is pending.
    pub fn new(
        intent: TransferIntent,
        quoted_amount_out: Amount,
        quoted_fee: Amount,
        created_slot: u64,
    ) -> (queued: Self)
        ensures
            queued == (QueuedIntent {
                intent,
                quoted_amount_out,
                quoted_fee,
                created_slot,
                status: IntentStatus::Pending,
            }),
    {
        QueuedIntent {
            intent,
            quoted_amount_out,
            quoted_fee,
            created_slot,
            status: IntentStatus::Pending,
        }
    }
}

} // verus!
