//! The mathematical model of a ledger and what each of its operations does
//! to it.

use vstd::prelude::*;

use crate::accounts::{credit_spec, Account, AccountView};
use crate::amount::{bps_floor_result, sub_result, Amount};
use crate::asset::{asset_lookup, registry_wf, Asset, MAX_DECIMALS};
use crate::error::{OrbitError, OrbitResult};
use crate::events::Event;
use crate::ids::{AccountId, AssetId, IntentId, RouteId, SessionId, TxId, VaultId};
use crate::oracle::{price_lookup, quote_result, Price};
use crate::orders::{IntentStatus, QueuedIntent, TransferIntent};
use crate::risk::{authorize_spec, RiskView};
use crate::routes::{route_lookup, total_fee_result, RouteConfig};
use crate::session::{add_counterflow_spec, allowance_spec, SessionView, SettlementSession};
use crate::vault::{
    consume_spec, inflow_spec, pay_out_spec, release_spec, reserve_spec, Vault, VaultKind,
};

verus! {

/// The notional one account may be paid in a session, by default.
pub const DEFAULT_MAX_ACCOUNT_NOTIONAL: u128 = 25_000_000_000_000;

/// The notional a whole session may pay out, by default.
pub const DEFAULT_MAX_SESSION_NOTIONAL: u128 = 80_000_000_000_000;

/// The whole state of a ledger as mathematical values.
#[verifier::ext_equal]
pub struct LedgerView {
    pub assets: Map<u64, Asset>,
    pub accounts: Map<u64, AccountView>,
    pub vaults: Map<u64, Vault>,
    pub prices: Map<u64, Price>,
    pub routes: Map<u64, RouteConfig>,
    pub intents: Map<u64, QueuedIntent>,
    pub sessions: Map<u64, SessionView>,
    pub risk: RiskView,
    pub events: Seq<Event>,
    pub slot: u64,
    pub next_account: u64,
    pub next_asset: u64,
    pub next_vault: u64,
    pub next_route: u64,
    pub next_intent: u64,
    pub next_session: u64,
    pub next_tx: u64,
}

/// Each account of a map by its view.
pub open spec fn account_views(m: Map<u64, Account>) -> Map<u64, AccountView> {
    Map::new(|k: u64| m.contains_key(k), |k: u64| m[k]@)
}

/// Each session of a map by its view.
pub open spec fn session_views(m: Map<u64, SettlementSession>) -> Map<u64, SessionView> {
    Map::new(|k: u64| m.contains_key(k), |k: u64| m[k]@)
}

// ---------------------------------------------------------------------------
// One step on one entry of a map, found by id.
// ---------------------------------------------------------------------------

/// A deposit into the vault `id`.
pub open spec fn inflow_at(vaults: Map<u64, Vault>, id: u64, amount: Amount) -> (
    Map<u64, Vault>,
    OrbitResult<()>,
) {
    if !vaults.contains_key(id) {
        (vaults, Err(OrbitError::VaultNotFound))
    } else {
        let (v, r) = inflow_spec(vaults[id], amount);
        (vaults.insert(id, v), r)
    }
}

/// A lock on the vault `id`.
pub open spec fn reserve_at(vaults: Map<u64, Vault>, id: u64, amount: Amount) -> (
    Map<u64, Vault>,
    OrbitResult<()>,
) {
    if !vaults.contains_key(id) {
        (vaults, Err(OrbitError::VaultNotFound))
    } else {
        let (v, r) = reserve_spec(vaults[id], amount);
        (vaults.insert(id, v), r)
    }
}

/// A payout of locked funds of the vault `id`.
pub open spec fn consume_at(vaults: Map<u64, Vault>, id: u64, amount: Amount) -> (
    Map<u64, Vault>,
    OrbitResult<()>,
) {
    if !vaults.contains_key(id) {
        (vaults, Err(OrbitError::VaultNotFound))
    } else {
        let (v, r) = consume_spec(vaults[id], amount);
        (vaults.insert(id, v), r)
    }
}

/// An unlock on the vault `id`.
pub open spec fn release_at(vaults: Map<u64, Vault>, id: u64, amount: Amount) -> (
    Map<u64, Vault>,
    OrbitResult<()>,
) {
    if !vaults.contains_key(id) {
        (vaults, Err(OrbitError::VaultNotFound))
    } else {
        let (v, r) = release_spec(vaults[id], amount);
        (vaults.insert(id, v), r)
    }
}

/// A payout of available funds of the vault `id`.
pub open spec fn pay_out_at(vaults: Map<u64, Vault>, id: u64, amount: Amount) -> (
    Map<u64, Vault>,
    OrbitResult<()>,
) {
    if !vaults.contains_key(id) {
        (vaults, Err(OrbitError::VaultNotFound))
    } else {
        let (v, r) = pay_out_spec(vaults[id], amount);
        (vaults.insert(id, v), r)
    }
}

/// A credit of `amount` of `asset` to the account `id`.
pub open spec fn credit_at(accounts: Map<u64, AccountView>, id: u64, asset: u64, amount: Amount) -> (
    Map<u64, AccountView>,
    OrbitResult<()>,
) {
    if !accounts.contains_key(id) {
        (accounts, Err(OrbitError::AccountNotFound))
    } else {
        let (a, r) = credit_spec(accounts[id], asset, amount);
        (accounts.insert(id, a), r)
    }
}

/// The counterflow allowance taken in the session `id`.
pub open spec fn allowance_at(
    sessions: Map<u64, SessionView>,
    id: u64,
    route: u64,
    requested: Amount,
) -> (Map<u64, SessionView>, OrbitResult<Amount>) {
    if !sessions.contains_key(id) {
        (sessions, Err(OrbitError::SessionNotFound))
    } else {
        let (s, r) = allowance_spec(sessions[id], route, requested);
        (sessions.insert(id, s), r)
    }
}

// ---------------------------------------------------------------------------
// What each operation of the ledger does to its state.
// ---------------------------------------------------------------------------

/// A route fits a ledger when both of its vaults exist and hold its assets,
/// and its operator has an account.
pub open spec fn route_fits(l: LedgerView, route: RouteConfig) -> bool {
    &&& l.vaults.contains_key(route.source_vault.0)
    &&& l.vaults.contains_key(route.target_vault.0)
    &&& l.vaults[route.source_vault.0].asset == route.source_asset
    &&& l.vaults[route.target_vault.0].asset == route.target_asset
    &&& l.accounts.contains_key(route.operator.0)
}

/// A queued intent fits a ledger when its accounts, its vaults and its route
/// exist, and it moves along its route.
pub open spec fn intent_fits(l: LedgerView, t: TransferIntent) -> bool {
    &&& l.accounts.contains_key(t.owner.0)
    &&& l.accounts.contains_key(t.recipient.0)
    &&& l.routes.contains_key(t.route.0)
    &&& l.routes[t.route.0].source_vault == t.source_vault
    &&& l.routes[t.route.0].target_vault == t.target_vault
    &&& l.routes[t.route.0].source_asset == t.source_asset
    &&& l.routes[t.route.0].target_asset == t.target_asset
}

impl LedgerView {
    /// What every operation of the ledger keeps, whatever its outcome: each
    /// entry sits under its own id, below the next id to be handed out; assets
    /// declare at most [`MAX_DECIMALS`] decimals; every route joins existing
    /// vaults of its own assets; every queued intent refers to existing
    /// accounts and to its existing route.
    pub open spec fn linked(self) -> bool {
        &&& registry_wf(self.assets)
        &&& forall|k: u64|
            #![trigger self.assets.contains_key(k)]
            self.assets.contains_key(k) ==> k < self.next_asset
        &&& forall|k: u64|
            #![trigger self.accounts.contains_key(k)]
            self.accounts.contains_key(k) ==> self.accounts[k].id.0 == k && k < self.next_account
        &&& forall|k: u64|
            #![trigger self.vaults.contains_key(k)]
            self.vaults.contains_key(k) ==> self.vaults[k].id.0 == k && k < self.next_vault
        &&& forall|k: u64|
            #![trigger self.prices.contains_key(k)]
            self.prices.contains_key(k) ==> self.prices[k].asset.0 == k
        &&& forall|k: u64|
            #![trigger self.routes.contains_key(k)]
            self.routes.contains_key(k) ==> self.routes[k].id.0 == k && k < self.next_route
                && route_fits(self, self.routes[k])
        &&& forall|k: u64|
            #![trigger self.intents.contains_key(k)]
            self.intents.contains_key(k) ==> self.intents[k].intent.id.0 == k && k
                < self.next_intent && intent_fits(self, self.intents[k].intent)
        &&& forall|k: u64|
            #![trigger self.sessions.contains_key(k)]
            self.sessions.contains_key(k) ==> self.sessions[k].id.0 == k && k < self.next_session
    }

    /// The bookkeeping of every vault balances.
    pub open spec fn vaults_balanced(self) -> bool {
        forall|k: u64|
            #![trigger self.vaults.contains_key(k)]
            self.vaults.contains_key(k) ==> self.vaults[k].wf()
    }

    /// A linked ledger whose vaults all balance. Every operation keeps it,
    /// except a deposit refused after the reserve grew.
    pub open spec fn wf(self) -> bool {
        self.linked() && self.vaults_balanced()
    }
}

/// A new ledger: nothing registered, default risk limits, slot 1, and every
/// id counter at 1.
pub open spec fn initial_view() -> LedgerView {
    LedgerView {
        assets: Map::empty(),
        accounts: Map::empty(),
        vaults: Map::empty(),
        prices: Map::empty(),
        routes: Map::empty(),
        intents: Map::empty(),
        sessions: Map::empty(),
        risk: RiskView {
            route_residual: Map::empty(),
            account_notional: Map::empty(),
            session_notional: Amount(0),
            max_account_notional: Amount(DEFAULT_MAX_ACCOUNT_NOTIONAL),
            max_session_notional: Amount(DEFAULT_MAX_SESSION_NOTIONAL),
        },
        events: Seq::empty(),
        slot: 1,
        next_account: 1,
        next_asset: 1,
        next_vault: 1,
        next_route: 1,
        next_intent: 1,
        next_session: 1,
        next_tx: 1,
    }
}

/// Opens an account under the next account id.
pub open spec fn create_account_spec(l: LedgerView, label: String) -> (LedgerView, AccountId) {
    let id = AccountId(l.next_account);
    (
        LedgerView {
            accounts: l.accounts.insert(id.0, AccountView { id, label, balances: Map::empty() }),
            next_account: (l.next_account + 1) as u64,
            ..l
        },
        id,
    )
}

/// Registers an enabled asset under the next asset id and logs it; the id is
/// used up even when the asset is refused for its decimals.
pub open spec fn register_asset_spec(
    l: LedgerView,
    symbol: String,
    decimals: u8,
    risk_weight_bps: u16,
) -> (LedgerView, OrbitResult<AssetId>) {
    let id = AssetId(l.next_asset);
    let l1 = LedgerView { next_asset: (l.next_asset + 1) as u64, ..l };
    if decimals > MAX_DECIMALS {
        (l1, Err(OrbitError::AmountOverflow))
    } else {
        (
            LedgerView {
                assets: l1.assets.insert(
                    id.0,
                    Asset { id, symbol, decimals, risk_weight_bps, enabled: true },
                ),
                events: l1.events.push(Event::AssetRegistered { asset: id, symbol }),
                ..l1
            },
            Ok(id),
        )
    }
}

/// Sets the price of an enabled asset, stamped with the current slot.
pub open spec fn set_price_spec(l: LedgerView, asset: AssetId, price_e8: u128, confidence_bps: u16) -> (
    LedgerView,
    OrbitResult<()>,
) {
    match asset_lookup(l.assets, asset.0) {
        Err(e) => (l, Err(e)),
        Ok(_) => (
            LedgerView {
                prices: l.prices.insert(
                    asset.0,
                    Price { asset, price_e8, confidence_bps, slot: l.slot },
                ),
                ..l
            },
            Ok(()),
        ),
    }
}

/// Creates an empty vault of an enabled asset under an existing controller,
/// under the next vault id, and logs it.
pub open spec fn create_vault_spec(
    l: LedgerView,
    asset: AssetId,
    controller: AccountId,
    kind: VaultKind,
) -> (LedgerView, OrbitResult<VaultId>) {
    match asset_lookup(l.assets, asset.0) {
        Err(e) => (l, Err(e)),
        Ok(_) => if !l.accounts.contains_key(controller.0) {
            (l, Err(OrbitError::AccountNotFound))
        } else {
            let id = VaultId(l.next_vault);
            (
                LedgerView {
                    vaults: l.vaults.insert(
                        id.0,
                        Vault {
                            id,
                            asset,
                            controller,
                            kind,
                            reserve: Amount(0),
                            locked: Amount(0),
                            paid: Amount(0),
                            received: Amount(0),
                        },
                    ),
                    next_vault: (l.next_vault + 1) as u64,
                    events: l.events.push(Event::VaultCreated { vault: id, asset, controller }),
                    ..l
                },
                Ok(id),
            )
        },
    }
}

/// Deposits into a vault.
pub open spec fn deposit_vault_spec(l: LedgerView, vault: VaultId, amount: Amount) -> (
    LedgerView,
    OrbitResult<()>,
) {
    let (vaults, r) = inflow_at(l.vaults, vault.0, amount);
    (LedgerView { vaults, ..l }, r)
}

/// Credits an account with an enabled asset.
pub open spec fn credit_account_spec(
    l: LedgerView,
    account: AccountId,
    asset: AssetId,
    amount: Amount,
) -> (LedgerView, OrbitResult<()>) {
    match asset_lookup(l.assets, asset.0) {
        Err(e) => (l, Err(e)),
        Ok(_) => {
            let (accounts, r) = credit_at(l.accounts, account.0, asset.0, amount);
            (LedgerView { accounts, ..l }, r)
        },
    }
}

/// Adds a route under the next route id, whatever id it came with. Both
/// assets must be enabled, both vaults must exist and hold the route's
/// assets, and the operator must have an account.
pub open spec fn add_route_spec(l: LedgerView, route: RouteConfig) -> (
    LedgerView,
    OrbitResult<RouteId>,
) {
    match asset_lookup(l.assets, route.source_asset.0) {
        Err(e) => (l, Err(e)),
        Ok(_) => match asset_lookup(l.assets, route.target_asset.0) {
            Err(e) => (l, Err(e)),
            Ok(_) => if !l.vaults.contains_key(route.source_vault.0) || !l.vaults.contains_key(
                route.target_vault.0,
            ) {
                (l, Err(OrbitError::VaultNotFound))
            } else if l.vaults[route.source_vault.0].asset != route.source_asset
                || l.vaults[route.target_vault.0].asset != route.target_asset {
                (l, Err(OrbitError::InvalidVaultAsset))
            } else if !l.accounts.contains_key(route.operator.0) {
                (l, Err(OrbitError::AccountNotFound))
            } else {
                let id = RouteId(l.next_route);
                (
                    LedgerView {
                        routes: l.routes.insert(id.0, RouteConfig { id, ..route }),
                        next_route: (l.next_route + 1) as u64,
                        events: l.events.push(
                            Event::RouteAdded {
                                route: id,
                                source_vault: route.source_vault,
                                target_vault: route.target_vault,
                            },
                        ),
                        ..l
                    },
                    Ok(id),
                )
            },
        },
    }
}

/// Opens a settlement session at the current slot under the next session id,
/// and logs it.
pub open spec fn open_session_spec(l: LedgerView) -> (LedgerView, SessionId) {
    let id = SessionId(l.next_session);
    (
        LedgerView {
            sessions: l.sessions.insert(
                id.0,
                SessionView {
                    id,
                    opened_slot: l.slot,
                    closed: false,
                    counterflow: Map::empty(),
                    accounted_counterflow: Map::empty(),
                    included_intents: Seq::empty(),
                },
            ),
            next_session: (l.next_session + 1) as u64,
            events: l.events.push(Event::SessionOpened { session: id, slot: l.slot }),
            ..l
        },
        id,
    )
}

/// Records counterflow of an enabled route in a session, and logs it.
pub open spec fn record_counterflow_spec(
    l: LedgerView,
    session: SessionId,
    route: RouteId,
    amount: Amount,
) -> (LedgerView, OrbitResult<()>) {
    match route_lookup(l.routes, route.0) {
        Err(e) => (l, Err(e)),
        Ok(_) => if !l.sessions.contains_key(session.0) {
            (l, Err(OrbitError::SessionNotFound))
        } else {
            let (s, r) = add_counterflow_spec(l.sessions[session.0], route.0, amount);
            match r {
                Err(e) => (l, Err(e)),
                Ok(_) => (
                    LedgerView {
                        sessions: l.sessions.insert(session.0, s),
                        events: l.events.push(
                            Event::CounterflowRecorded { session, route, amount },
                        ),
                        ..l
                    },
                    Ok(()),
                ),
            }
        },
    }
}

/// Cancels a pending intent: its locked input is released and it is logged.
pub open spec fn cancel_intent_spec(l: LedgerView, intent: IntentId) -> (LedgerView, OrbitResult<()>) {
    if !l.intents.contains_key(intent.0) {
        (l, Err(OrbitError::IntentNotFound))
    } else if l.intents[intent.0].status != IntentStatus::Pending {
        (l, Err(OrbitError::IntentNotPending))
    } else {
        let queued = l.intents[intent.0];
        let (vaults, r) = release_at(
            l.vaults,
            queued.intent.source_vault.0,
            queued.intent.amount_in,
        );
        match r {
            Err(e) => (LedgerView { vaults, ..l }, Err(e)),
            Ok(_) => (
                LedgerView {
                    vaults,
                    intents: l.intents.insert(
                        intent.0,
                        QueuedIntent { status: IntentStatus::Cancelled, ..queued },
                    ),
                    events: l.events.push(Event::IntentCancelled { intent }),
                    ..l
                },
                Ok(()),
            ),
        }
    }
}

/// The fee a route takes from a gross payout, and the net left for the
/// recipient: `floor(gross * (fee_bps + relayer_bps) / 10_000)` and the rest.
pub open spec fn fee_split(gross: Amount, route: RouteConfig) -> OrbitResult<(Amount, Amount)> {
    match total_fee_result(route) {
        Err(e) => Err(e),
        Ok(bps) => match bps_floor_result(gross, bps) {
            Err(e) => Err(e),
            Ok(fee) => match sub_result(gross, fee) {
                Err(e) => Err(e),
                Ok(net) => Ok((fee, net)),
            },
        },
    }
}

/// The checks made before an intent is queued, in their order, and what they
/// compute: the route, the gross payout quoted for `amount_in` and the fee.
pub open spec fn intent_quote(
    l: LedgerView,
    owner: AccountId,
    recipient: AccountId,
    route_id: RouteId,
    amount_in: Amount,
    min_amount_out: Amount,
) -> OrbitResult<(RouteConfig, Amount, Amount)> {
    if !l.accounts.contains_key(owner.0) || !l.accounts.contains_key(recipient.0) {
        Err(OrbitError::AccountNotFound)
    } else {
        match route_lookup(l.routes, route_id.0) {
            Err(e) => Err(e),
            Ok(route) => match price_lookup(l.prices, route.source_asset.0) {
                Err(e) => Err(e),
                Ok(source_price) => match price_lookup(l.prices, route.target_asset.0) {
                    Err(e) => Err(e),
                    Ok(target_price) => if source_price.confidence_bps < route.min_confidence_bps
                        || target_price.confidence_bps < route.min_confidence_bps {
                        Err(OrbitError::PriceConfidence)
                    } else {
                        match quote_result(
                            l.assets,
                            l.prices,
                            route.source_asset.0,
                            route.target_asset.0,
                            amount_in,
                        ) {
                            Err(e) => Err(e),
                            Ok(gross) => match fee_split(gross, route) {
                                Err(e) => Err(e),
                                Ok((fee, net)) => if net.0 < min_amount_out.0 {
                                    Err(OrbitError::MinimumOutput)
                                } else {
                                    Ok((route, gross, fee))
                                },
                            },
                        }
                    },
                },
            },
        }
    }
}

/// Queues an intent once its checks pass and its input is locked in the
/// route's source vault; it is logged with its quote.
pub open spec fn submit_intent_spec(
    l: LedgerView,
    owner: AccountId,
    recipient: AccountId,
    route_id: RouteId,
    amount_in: Amount,
    min_amount_out: Amount,
    deadline_slot: u64,
    nonce: u64,
) -> (LedgerView, OrbitResult<IntentId>) {
    match intent_quote(l, owner, recipient, route_id, amount_in, min_amount_out) {
        Err(e) => (l, Err(e)),
        Ok((route, gross, fee)) => {
            let (vaults, locked) = reserve_at(l.vaults, route.source_vault.0, amount_in);
            match locked {
                Err(e) => (LedgerView { vaults, ..l }, Err(e)),
                Ok(_) => {
                    let id = IntentId(l.next_intent);
                    let intent = TransferIntent {
                        id,
                        owner,
                        recipient,
                        source_asset: route.source_asset,
                        target_asset: route.target_asset,
                        source_vault: route.source_vault,
                        target_vault: route.target_vault,
                        route: route_id,
                        amount_in,
                        min_amount_out,
                        deadline_slot,
                        nonce,
                    };
                    (
                        LedgerView {
                            vaults,
                            intents: l.intents.insert(
                                id.0,
                                QueuedIntent {
                                    intent,
                                    quoted_amount_out: gross,
                                    quoted_fee: fee,
                                    created_slot: l.slot,
                                    status: IntentStatus::Pending,
                                },
                            ),
                            next_intent: (l.next_intent + 1) as u64,
                            events: l.events.push(
                                Event::IntentQueued {
                                    intent: id,
                                    route: route_id,
                                    amount_in,
                                    quoted_out: gross,
                                },
                            ),
                            ..l
                        },
                        Ok(id),
                    )
                },
            }
        },
    }
}

/// The checks made before a queued intent is settled, in their order, and
/// what they compute: the intent, its route, and the gross payout, fee and
/// net payout at the current prices.
pub open spec fn settle_quote(l: LedgerView, intent: IntentId) -> OrbitResult<
    (TransferIntent, RouteConfig, Amount, Amount, Amount),
> {
    if !l.intents.contains_key(intent.0) {
        Err(OrbitError::IntentNotFound)
    } else if l.intents[intent.0].status != IntentStatus::Pending {
        Err(OrbitError::IntentNotPending)
    } else {
        let t = l.intents[intent.0].intent;
        match route_lookup(l.routes, t.route.0) {
            Err(e) => Err(e),
            Ok(route) => if t.deadline_slot < l.slot {
                Err(OrbitError::IntentNotPending)
            } else {
                match quote_result(
                    l.assets,
                    l.prices,
                    t.source_asset.0,
                    t.target_asset.0,
                    t.amount_in,
                ) {
                    Err(e) => Err(e),
                    Ok(gross) => match fee_split(gross, route) {
                        Err(e) => Err(e),
                        Ok((fee, net)) => if net.0 < t.min_amount_out.0 {
                            Err(OrbitError::MinimumOutput)
                        } else {
                            Ok((t, route, gross, fee, net))
                        },
                    },
                }
            },
        }
    }
}

/// The last step of a settlement: the transaction id is taken, the intent is
/// marked settled and included in the session, the settlement is logged and
/// the slot advances.
pub open spec fn settle_record_spec(
    l: LedgerView,
    session: SessionId,
    intent: IntentId,
    t: TransferIntent,
    gross: Amount,
    fee: Amount,
    net: Amount,
    credit: Amount,
) -> (LedgerView, OrbitResult<TxId>) {
    let tx = TxId(l.next_tx);
    (
        LedgerView {
            next_tx: (l.next_tx + 1) as u64,
            intents: l.intents.insert(
                intent.0,
                QueuedIntent { status: IntentStatus::Settled, ..l.intents[intent.0] },
            ),
            sessions: l.sessions.insert(
                session.0,
                SessionView {
                    included_intents: l.sessions[session.0].included_intents.push(intent),
                    ..l.sessions[session.0]
                },
            ),
            events: l.events.push(
                Event::IntentSettled {
                    tx,
                    session,
                    intent,
                    recipient: t.recipient,
                    target_asset: t.target_asset,
                    gross_out: gross,
                    net_out: net,
                    fee,
                    counterflow_credit: credit,
                },
            ),
            slot: (l.slot + 1) as u64,
            ..l
        },
        Ok(tx),
    )
}

/// The moves of funds of a settlement, once the counterflow allowance is
/// taken: risk authorization, then the source vault pays the locked input,
/// the target vault pays the gross output, the recipient is credited the net
/// and the route operator the fee. Each step that fails stops the settlement
/// and keeps the steps before it.
pub open spec fn settle_payout_spec(
    l: LedgerView,
    session: SessionId,
    intent: IntentId,
    t: TransferIntent,
    route: RouteConfig,
    gross: Amount,
    fee: Amount,
    net: Amount,
    credit: Amount,
) -> (LedgerView, OrbitResult<TxId>) {
    let (risk, authorized) = authorize_spec(l.risk, route, t.owner.0, gross, credit);
    let l2 = LedgerView { risk, ..l };
    match authorized {
        Err(e) => (l2, Err(e)),
        Ok(_) => {
            let (v1, consumed) = consume_at(l2.vaults, t.source_vault.0, t.amount_in);
            let l3 = LedgerView { vaults: v1, ..l2 };
            match consumed {
                Err(e) => (l3, Err(e)),
                Ok(_) => {
                    let (v2, paid) = pay_out_at(v1, t.target_vault.0, gross);
                    let l4 = LedgerView { vaults: v2, ..l3 };
                    match paid {
                        Err(e) => (l4, Err(e)),
                        Ok(_) => {
                            let (a1, net_credited) = credit_at(
                                l4.accounts,
                                t.recipient.0,
                                t.target_asset.0,
                                net,
                            );
                            let l5 = LedgerView { accounts: a1, ..l4 };
                            match net_credited {
                                Err(e) => (l5, Err(e)),
                                Ok(_) => {
                                    let (a2, fee_credited) = credit_at(
                                        a1,
                                        route.operator.0,
                                        t.target_asset.0,
                                        fee,
                                    );
                                    let l6 = LedgerView { accounts: a2, ..l5 };
                                    match fee_credited {
                                        Err(e) => (l6, Err(e)),
                                        Ok(_) => settle_record_spec(
                                            l6,
                                            session,
                                            intent,
                                            t,
                                            gross,
                                            fee,
                                            net,
                                            credit,
                                        ),
                                    }
                                },
                            }
                        },
                    }
                },
            }
        },
    }
}

/// Settles a pending intent in a session: the checks of [`settle_quote`], then
/// the counterflow allowance of the session on the route, then the steps of
/// [`settle_payout_spec`].
pub open spec fn settle_intent_spec(l: LedgerView, session: SessionId, intent: IntentId) -> (
    LedgerView,
    OrbitResult<TxId>,
) {
    match settle_quote(l, intent) {
        Err(e) => (l, Err(e)),
        Ok((t, route, gross, fee, net)) => {
            let (sessions, allowed) = allowance_at(l.sessions, session.0, route.id.0, gross);
            let l1 = LedgerView { sessions, ..l };
            match allowed {
                Err(e) => (l1, Err(e)),
                Ok(credit) => settle_payout_spec(
                    l1,
                    session,
                    intent,
                    t,
                    route,
                    gross,
                    fee,
                    net,
                    credit,
                ),
            }
        },
    }
}


} // verus!
