use vstd::prelude::*;

verus! {

/// Every way an operation of the ledger can be refused.
#[derive(Clone, Debug, PartialEq, Eq)]
pub enum OrbitError {
    AmountOverflow,
    InsufficientBalance,
    AssetNotFound,
    AssetDisabled,
    AccountNotFound,
    VaultNotFound,
    RouteNotFound,
    RouteDisabled,
    IntentNotFound,
    IntentNotPending,
    SessionNotFound,
    PriceNotAvailable,
    PriceConfidence,
    MinimumOutput,
    SettlementLimitExceeded,
    RouteCapacityExceeded,
    InvalidVaultAsset,
    Codec(String),
}

pub type OrbitResult<T> = Result<T, OrbitError>;

} // verus!
