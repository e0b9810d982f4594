use std::collections::BTreeMap;
use vstd::prelude::*;

use crate::accounts::Account;
use crate::amount::Amount;
use crate::asset::{Asset, AssetRegistry};
use crate::error::{OrbitError, OrbitResult};
use crate::events::Event;
use crate::ids::{AccountId, AssetId, IntentId, RouteId, SessionId, TxId, VaultId};
use crate::invariants::{
    lemma_add_route_wf, lemma_cancel_intent_wf, lemma_create_account_wf, lemma_create_vault_wf,
    lemma_credit_account_wf, lemma_deposit_vault_wf, lemma_open_session_wf,
    lemma_record_counterflow_wf, lemma_register_asset_wf, lemma_set_price_wf, lemma_settle_wf,
    lemma_submit_intent_wf,
};
use crate::locks::{
    lemma_cancel_intent_locks, lemma_create_vault_locks, lemma_deposit_vault_locks,
    lemma_locks_frame, lemma_settle_intent_locks, lemma_submit_intent_locks, locks_balanced,
    no_pending_draws_on,
};
use crate::model::{
    account_views, add_route_spec, allowance_at, cancel_intent_spec, consume_at,
    create_account_spec, create_vault_spec, credit_account_spec, credit_at, deposit_vault_spec,
    fee_split, inflow_at, initial_view, intent_quote, open_session_spec, pay_out_at,
    record_counterflow_spec, register_asset_spec, release_at, reserve_at, session_views,
    set_price_spec, settle_intent_spec, settle_payout_spec, settle_quote, settle_record_spec,
    submit_intent_spec, LedgerView, DEFAULT_MAX_ACCOUNT_NOTIONAL, DEFAULT_MAX_SESSION_NOTIONAL,
};
use crate::oracle::{Oracle, Price};
use crate::orders::{IntentStatus, QueuedIntent, TransferIntent};
use crate::report::{
    balance_count, lemma_map_sum_empty, lemma_map_sum_remove, map_sum, reserve_units, DemoReport,
};
use crate::risk::RiskEngine;
use crate::routes::{RouteBook, RouteConfig};
use crate::session::{SessionView, SettlementSession};
use crate::vault::{Vault, VaultKind};

verus! {

/// The settlement ledger: registered assets, accounts, vaults, prices, routes,
/// queued intents, settlement sessions, the risk engine and the audit log,
/// with the current slot and the next id of each kind to be handed out.
#[derive(Clone, Debug)]
pub struct Ledger {
    pub assets: AssetRegistry,
    pub accounts: BTreeMap<u64, Account>,
    pub vaults: BTreeMap<u64, Vault>,
    pub oracle: Oracle,
    pub routes: RouteBook,
    pub intents: BTreeMap<u64, QueuedIntent>,
    pub sessions: BTreeMap<u64, SettlementSession>,
    pub risk: RiskEngine,
    pub events: Vec<Event>,
    pub slot: u64,
    pub next_account: u64,
    pub next_asset: u64,
    pub next_vault: u64,
    pub next_route: u64,
    pub next_intent: u64,
    pub next_session: u64,
    pub next_tx: u64,
}

impl View for Ledger {
    type V = LedgerView;

    open spec fn view(&self) -> LedgerView {
        LedgerView {
            assets: self.assets@,
            accounts: account_views(self.accounts@),
            vaults: self.vaults@,
            prices: self.oracle@,
            routes: self.routes@,
            intents: self.intents@,
            sessions: session_views(self.sessions@),
            risk: self.risk@,
            events: self.events@,
            slot: self.slot,
            next_account: self.next_account,
            next_asset: self.next_asset,
            next_vault: self.next_vault,
            next_route: self.next_route,
            next_intent: self.next_intent,
            next_session: self.next_session,
            next_tx: self.next_tx,
        }
    }
}

proof fn lemma_account_views_insert(m: Map<u64, Account>, k: u64, a: Account)
    ensures
        account_views(m.insert(k, a)) == account_views(m).insert(k, a@),
{
    assert(account_views(m.insert(k, a)) =~= account_views(m).insert(k, a@));
}

proof fn lemma_session_views_insert(m: Map<u64, SettlementSession>, k: u64, s: SettlementSession)
    ensures
        session_views(m.insert(k, s)) == session_views(m).insert(k, s@),
{
    assert(session_views(m.insert(k, s)) =~= session_views(m).insert(k, s@));
}

// The steps on one entry of the ledger's maps, found by id.

/// Deposits into the vault `id`.
fn inflow_in(vaults: &mut BTreeMap<u64, Vault>, id: VaultId, amount: Amount) -> (result:
    OrbitResult<()>)
    ensures
        (final(vaults)@, result) == inflow_at(old(vaults)@, id.0, amount),
{
    let mut vault = match vaults.get(&id.0) {
        Some(vault) => *vault,
        None => return Err(OrbitError::VaultNotFound),
    };
    let result = vault.deposit(amount);
    vaults.insert(id.0, vault);
    result
}

/// Accrues to the vault `id`.
fn accrue_in(vaults: &mut BTreeMap<u64, Vault>, id: VaultId, amount: Amount) -> (result:
    OrbitResult<()>)
    ensures
        (final(vaults)@, result) == inflow_at(old(vaults)@, id.0, amount),
{
    let mut vault = match vaults.get(&id.0) {
        Some(vault) => *vault,
        None => return Err(OrbitError::VaultNotFound),
    };
    let result = vault.accrue(amount);
    vaults.insert(id.0, vault);
    result
}

/// Locks funds of the vault `id`.
fn reserve_in(vaults: &mut BTreeMap<u64, Vault>, id: VaultId, amount: Amount) -> (result:
    OrbitResult<()>)
    ensures
        (final(vaults)@, result) == reserve_at(old(vaults)@, id.0, amount),
{
    let mut vault = match vaults.get(&id.0) {
        Some(vault) => *vault,
        None => return Err(OrbitError::VaultNotFound),
    };
    let result = vault.reserve(amount);
    vaults.insert(id.0, vault);
    result
}

/// Pays out locked funds of the vault `id`.
fn consume_in(vaults: &mut BTreeMap<u64, Vault>, id: VaultId, amount: Amount) -> (result:
    OrbitResult<()>)
    ensures
        (final(vaults)@, result) == consume_at(old(vaults)@, id.0, amount),
{
    let mut vault = match vaults.get(&id.0) {
        Some(vault) => *vault,
        None => return Err(OrbitError::VaultNotFound),
    };
    let result = vault.consume_reserved(amount);
    vaults.insert(id.0, vault);
    result
}

/// Unlocks funds of the vault `id`.
fn release_in(vaults: &mut BTreeMap<u64, Vault>, id: VaultId, amount: Amount) -> (result:
    OrbitResult<()>)
    ensures
        (final(vaults)@, result) == release_at(old(vaults)@, id.0, amount),
{
    let mut vault = match vaults.get(&id.0) {
        Some(vault) => *vault,
        None => return Err(OrbitError::VaultNotFound),
    };
    let result = vault.release_reserved(amount);
    vaults.insert(id.0, vault);
    result
}

/// Pays out available funds of the vault `id`.
fn pay_out_in(vaults: &mut BTreeMap<u64, Vault>, id: VaultId, amount: Amount) -> (result:
    OrbitResult<()>)
    ensures
        (final(vaults)@, result) == pay_out_at(old(vaults)@, id.0, amount),
{
    let mut vault = match vaults.get(&id.0) {
        Some(vault) => *vault,
        None => return Err(OrbitError::VaultNotFound),
    };
    let result = vault.pay_out(amount);
    vaults.insert(id.0, vault);
    result
}

/// Credits the account `id`.
fn credit_in(accounts: &mut BTreeMap<u64, Account>, id: AccountId, asset: AssetId, amount: Amount) -> (result:
    OrbitResult<()>)
    ensures
        (account_views(final(accounts)@), result) == credit_at(
            account_views(old(accounts)@),
            id.0,
            asset.0,
            amount,
        ),
{
    let mut account = match accounts.remove(&id.0) {
        Some(account) => account,
        None => {
            assert(accounts@ =~= old(accounts)@);
            return Err(OrbitError::AccountNotFound);
        },
    };
    let result = account.credit(asset, amount);
    accounts.insert(id.0, account);
    proof {
        assert(accounts@ =~= old(accounts)@.insert(id.0, account));
        lemma_account_views_insert(old(accounts)@, id.0, account);
    }
    result
}


/// Takes a counterflow allowance in the session `id`.
fn allowance_in(
    sessions: &mut BTreeMap<u64, SettlementSession>,
    id: SessionId,
    route: RouteId,
    requested: Amount,
) -> (result: OrbitResult<Amount>)
    ensures
        (session_views(final(sessions)@), result) == allowance_at(
            session_views(old(sessions)@),
            id.0,
            route.0,
            requested,
        ),
{
    let mut session = match sessions.remove(&id.0) {
        Some(session) => session,
        None => {
            assert(sessions@ =~= old(sessions)@);
            return Err(OrbitError::SessionNotFound);
        },
    };
    let result = session.counterflow_allowance(route, requested);
    sessions.insert(id.0, session);
    proof {
        assert(sessions@ =~= old(sessions)@.insert(id.0, session));
        lemma_session_views_insert(old(sessions)@, id.0, session);
    }
    result
}

/// Records `intent` as settled in the session `id`, which must exist.
fn include_in(sessions: &mut BTreeMap<u64, SettlementSession>, id: SessionId, intent: IntentId)
    requires
        old(sessions)@.contains_key(id.0),
    ensures
        session_views(final(sessions)@) == session_views(old(sessions)@).insert(
            id.0,
            SessionView {
                included_intents: old(sessions)@[id.0]@.included_intents.push(intent),
                ..old(sessions)@[id.0]@
            },
        ),
        final(sessions)@.dom() == old(sessions)@.dom(),
{
    let mut session = match sessions.remove(&id.0) {
        Some(session) => session,
        None => {
            assert(false);
            return;
        },
    };
    session.include_intent(intent);
    sessions.insert(id.0, session);
    proof {
        assert(sessions@ =~= old(sessions)@.insert(id.0, session));
        lemma_session_views_insert(old(sessions)@, id.0, session);
    }
}

/// Closes the session `id`, if there is one.
fn close_in(sessions: &mut BTreeMap<u64, SettlementSession>, id: SessionId) -> (result:
    OrbitResult<()>)
    ensures
        !old(sessions)@.contains_key(id.0) ==> result == Err::<(), OrbitError>(
            OrbitError::SessionNotFound,
        ) && final(sessions)@ == old(sessions)@,
        old(sessions)@.contains_key(id.0) ==> result is Ok && session_views(final(sessions)@)
            == session_views(old(sessions)@).insert(
            id.0,
            SessionView { closed: true, ..old(sessions)@[id.0]@ },
        ),
{
    let mut session = match sessions.remove(&id.0) {
        Some(session) => session,
        None => {
            assert(sessions@ =~= old(sessions)@);
            return Err(OrbitError::SessionNotFound);
        },
    };
    session.close();
    sessions.insert(id.0, session);
    proof {
        assert(sessions@ =~= old(sessions)@.insert(id.0, session));
        lemma_session_views_insert(old(sessions)@, id.0, session);
    }
    Ok(())
}

/// A copy of a route configuration.
fn copy_route(route: &RouteConfig) -> (copy: RouteConfig)
    ensures
        copy == *route,
{
    RouteConfig {
        id: route.id,
        name: route.name.clone(),
        source_asset: route.source_asset,
        target_asset: route.target_asset,
        source_vault: route.source_vault,
        target_vault: route.target_vault,
        operator: route.operator,
        fee_bps: route.fee_bps,
        relayer_bps: route.relayer_bps,
        max_unhedged: route.max_unhedged,
        session_limit: route.session_limit,
        min_confidence_bps: route.min_confidence_bps,
        enabled: route.enabled,
    }
}

impl Ledger {
    pub fn new() -> (ledger: Self)
        ensures
            ledger@ == initial_view(),
            ledger@.linked(),
            ledger@.wf(),
            locks_balanced(ledger@),
    {
        let ledger = Ledger {
            assets: AssetRegistry::default(),
            accounts: BTreeMap::new(),
            vaults: BTreeMap::new(),
            oracle: Oracle::default(),
            routes: RouteBook::default(),
            intents: BTreeMap::new(),
            sessions: BTreeMap::new(),
            risk: RiskEngine::new(
                Amount::new(DEFAULT_MAX_ACCOUNT_NOTIONAL),
                Amount::new(DEFAULT_MAX_SESSION_NOTIONAL),
            ),
            events: Vec::new(),
            slot: 1,
            next_account: 1,
            next_asset: 1,
            next_vault: 1,
            next_route: 1,
            next_intent: 1,
            next_session: 1,
            next_tx: 1,
        };
        proof {
            assert(account_views(ledger.accounts@) =~= Map::empty());
            assert(session_views(ledger.sessions@) =~= Map::empty());
            assert(ledger@ =~= initial_view());
        }
        ledger
    }

    pub fn create_account(&mut self, label: String) -> (id: AccountId)
        requires
            old(self)@.next_account < u64::MAX,
        ensures
            (final(self)@, id) == create_account_spec(old(self)@, label),
            old(self)@.linked() ==> final(self)@.linked(),
            old(self)@.wf() ==> final(self)@.wf(),
            old(self)@.events.is_prefix_of(final(self)@.events),
            locks_balanced(old(self)@) ==> locks_balanced(final(self)@),
    {
        proof {
            if locks_balanced(self@) {
                lemma_locks_frame(self@, create_account_spec(self@, label).0);
            }
        }
        let id = AccountId::new(self.next_account);
        self.next_account = self.next_account + 1;
        let account = Account::new(id, label);
        self.accounts.insert(id.0, account);
        proof {
            lemma_account_views_insert(old(self).accounts@, id.0, account);
            assert(self@ =~= create_account_spec(old(self)@, label).0);
            if old(self)@.wf() {
                lemma_create_account_wf(old(self)@, label);
            }
        }
        id
    }

    pub fn register_asset(&mut self, symbol: String, decimals: u8, risk_weight_bps: u16) -> (result:
        OrbitResult<AssetId>)
        requires
            old(self)@.next_asset < u64::MAX,
        ensures
            (final(self)@, result) == register_asset_spec(
                old(self)@,
                symbol,
                decimals,
                risk_weight_bps,
            ),
            old(self)@.linked() ==> final(self)@.linked(),
            old(self)@.wf() ==> final(self)@.wf(),
            old(self)@.events.is_prefix_of(final(self)@.events),
            locks_balanced(old(self)@) ==> locks_balanced(final(self)@),
    {
        proof {
            if locks_balanced(self@) {
                lemma_locks_frame(self@, register_asset_spec(self@, symbol, decimals, risk_weight_bps).0);
            }
        }
        proof {
            if self@.linked() {
                lemma_register_asset_wf(self@, symbol, decimals, risk_weight_bps);
            }
        }
        let id = AssetId::new(self.next_asset);
        self.next_asset = self.next_asset + 1;
        let inserted = self.assets.insert(
            Asset { id, symbol: symbol.clone(), decimals, risk_weight_bps, enabled: true },
        );
        match inserted {
            Err(e) => {
                proof {
                    assert(self@ =~= register_asset_spec(
                        old(self)@,
                        symbol,
                        decimals,
                        risk_weight_bps,
                    ).0);
                }
                return Err(e);
            },
            Ok(()) => {},
        }
        self.events.push(Event::AssetRegistered { asset: id, symbol });
        proof {
            assert(self@ =~= register_asset_spec(
                old(self)@,
                symbol,
                decimals,
                risk_weight_bps,
            ).0);
        }
        Ok(id)
    }

    pub fn set_price(&mut self, asset: AssetId, price_e8: u128, confidence_bps: u16) -> (result:
        OrbitResult<()>)
        ensures
            (final(self)@, result) == set_price_spec(old(self)@, asset, price_e8, confidence_bps),
            old(self)@.linked() ==> final(self)@.linked(),
            old(self)@.wf() ==> final(self)@.wf(),
            old(self)@.events.is_prefix_of(final(self)@.events),
            locks_balanced(old(self)@) ==> locks_balanced(final(self)@),
    {
        proof {
            if locks_balanced(self@) {
                lemma_locks_frame(self@, set_price_spec(self@, asset, price_e8, confidence_bps).0);
            }
        }
        proof {
            if self@.linked() {
                lemma_set_price_wf(self@, asset, price_e8, confidence_bps);
            }
        }
        self.assets.get(asset)?;
        self.oracle.set_price(Price { asset, price_e8, confidence_bps, slot: self.slot });
        proof {
            assert(self@ =~= set_price_spec(old(self)@, asset, price_e8, confidence_bps).0);
        }
        Ok(())
    }

    pub fn create_vault(&mut self, asset: AssetId, controller: AccountId, kind: VaultKind) -> (result:
        OrbitResult<VaultId>)
        requires
            create_vault_spec(old(self)@, asset, controller, kind).1 is Ok ==> old(self)@.next_vault
                < u64::MAX,
        ensures
            (final(self)@, result) == create_vault_spec(old(self)@, asset, controller, kind),
            old(self)@.linked() ==> final(self)@.linked(),
            old(self)@.wf() ==> final(self)@.wf(),
            old(self)@.events.is_prefix_of(final(self)@.events),
            no_pending_draws_on(old(self)@, old(self)@.next_vault) && locks_balanced(old(self)@)
                ==> locks_balanced(final(self)@),
    {
        proof {
            if no_pending_draws_on(self@, self@.next_vault) && locks_balanced(self@) {
                lemma_create_vault_locks(self@, asset, controller, kind);
            }
        }
        proof {
            if self@.linked() {
                lemma_create_vault_wf(self@, asset, controller, kind);
            }
        }
        self.assets.get(asset)?;
        self.account(controller)?;
        let id = VaultId::new(self.next_vault);
        self.next_vault = self.next_vault + 1;
        self.vaults.insert(id.0, Vault::new(id, asset, controller, kind));
        self.events.push(Event::VaultCreated { vault: id, asset, controller });
        proof {
            assert(self@ =~= create_vault_spec(old(self)@, asset, controller, kind).0);
        }
        Ok(id)
    }

    pub fn deposit_vault(&mut self, vault: VaultId, amount: Amount) -> (result: OrbitResult<()>)
        ensures
            (final(self)@, result) == deposit_vault_spec(old(self)@, vault, amount),
            old(self)@.linked() ==> final(self)@.linked(),
            old(self)@.wf() && result is Ok ==> final(self)@.wf(),
            old(self)@.events.is_prefix_of(final(self)@.events),
            locks_balanced(old(self)@) ==> locks_balanced(final(self)@),
    {
        proof {
            if locks_balanced(self@) {
                lemma_deposit_vault_locks(self@, vault, amount);
            }
        }
        proof {
            if self@.linked() {
                lemma_deposit_vault_wf(self@, vault, amount);
            }
        }
        let result = inflow_in(&mut self.vaults, vault, amount);
        proof {
            assert(self@ =~= deposit_vault_spec(old(self)@, vault, amount).0);
        }
        result
    }

    pub fn credit_account(&mut self, account: AccountId, asset: AssetId, amount: Amount) -> (result:
        OrbitResult<()>)
        ensures
            (final(self)@, result) == credit_account_spec(old(self)@, account, asset, amount),
            old(self)@.linked() ==> final(self)@.linked(),
            old(self)@.wf() ==> final(self)@.wf(),
            old(self)@.events.is_prefix_of(final(self)@.events),
            locks_balanced(old(self)@) ==> locks_balanced(final(self)@),
    {
        proof {
            if locks_balanced(self@) {
                lemma_locks_frame(self@, credit_account_spec(self@, account, asset, amount).0);
            }
        }
        proof {
            if self@.linked() {
                lemma_credit_account_wf(self@, account, asset, amount);
            }
        }
        self.assets.get(asset)?;
        let result = credit_in(&mut self.accounts, account, asset, amount);
        proof {
            assert(self@ =~= credit_account_spec(old(self)@, account, asset, amount).0);
        }
        result
    }

    pub fn add_route(&mut self, route: RouteConfig) -> (result: OrbitResult<RouteId>)
        requires
            add_route_spec(old(self)@, route).1 is Ok ==> old(self)@.next_route < u64::MAX,
        ensures
            (final(self)@, result) == add_route_spec(old(self)@, route),
            old(self)@.linked() ==> final(self)@.linked(),
            old(self)@.wf() ==> final(self)@.wf(),
            old(self)@.events.is_prefix_of(final(self)@.events),
            locks_balanced(old(self)@) ==> locks_balanced(final(self)@),
    {
        proof {
            if locks_balanced(self@) {
                lemma_locks_frame(self@, add_route_spec(self@, route).0);
            }
        }
        proof {
            if self@.linked() {
                lemma_add_route_wf(self@, route);
            }
        }
        let mut route = route;
        let ghost given = route;
        self.assets.get(route.source_asset)?;
        self.assets.get(route.target_asset)?;
        let source_vault = self.vault(route.source_vault)?;
        let target_vault = self.vault(route.target_vault)?;
        if source_vault.asset.0 != route.source_asset.0 || target_vault.asset.0
            != route.target_asset.0 {
            return Err(OrbitError::InvalidVaultAsset);
        }
        self.account(route.operator)?;
        let id = RouteId::new(self.next_route);
        self.next_route = self.next_route + 1;
        route.id = id;
        self.events.push(
            Event::RouteAdded {
                route: id,
                source_vault: route.source_vault,
                target_vault: route.target_vault,
            },
        );
        self.routes.insert(route);
        proof {
            assert(route == RouteConfig { id, ..given });
            assert(self@ =~= add_route_spec(old(self)@, given).0);
        }
        Ok(id)
    }

    pub fn open_session(&mut self) -> (id: SessionId)
        requires
            old(self)@.next_session < u64::MAX,
        ensures
            (final(self)@, id) == open_session_spec(old(self)@),
            old(self)@.linked() ==> final(self)@.linked(),
            old(self)@.wf() ==> final(self)@.wf(),
            old(self)@.events.is_prefix_of(final(self)@.events),
            locks_balanced(old(self)@) ==> locks_balanced(final(self)@),
    {
        proof {
            if locks_balanced(self@) {
                lemma_locks_frame(self@, open_session_spec(self@).0);
            }
        }
        proof {
            if self@.linked() {
                lemma_open_session_wf(self@);
            }
        }
        let id = SessionId::new(self.next_session);
        self.next_session = self.next_session + 1;
        let session = SettlementSession::new(id, self.slot);
        self.sessions.insert(id.0, session);
        self.events.push(Event::SessionOpened { session: id, slot: self.slot });
        proof {
            lemma_session_views_insert(old(self).sessions@, id.0, session);
            assert(self@ =~= open_session_spec(old(self)@).0);
        }
        id
    }

    pub fn record_counterflow(&mut self, session_id: SessionId, route_id: RouteId, amount: Amount) -> (result:
        OrbitResult<()>)
        ensures
            (final(self)@, result) == record_counterflow_spec(
                old(self)@,
                session_id,
                route_id,
                amount,
            ),
            old(self)@.linked() ==> final(self)@.linked(),
            old(self)@.wf() ==> final(self)@.wf(),
            old(self)@.events.is_prefix_of(final(self)@.events),
            locks_balanced(old(self)@) ==> locks_balanced(final(self)@),
    {
        proof {
            if locks_balanced(self@) {
                lemma_locks_frame(self@, record_counterflow_spec(self@, session_id, route_id, amount).0);
            }
        }
        proof {
            if self@.linked() {
                lemma_record_counterflow_wf(self@, session_id, route_id, amount);
            }
        }
        self.routes.get(route_id)?;
        let mut session = match self.sessions.remove(&session_id.0) {
            Some(session) => session,
            None => {
                assert(self.sessions@ =~= old(self).sessions@);
                assert(self@ =~= old(self)@);
                return Err(OrbitError::SessionNotFound);
            },
        };
        let ghost removed = self.sessions@;
        let added = session.add_counterflow(route_id, amount);
        self.sessions.insert(session_id.0, session);
        proof {
            lemma_session_views_insert(removed, session_id.0, session);
            assert(self.sessions@ =~= old(self).sessions@.insert(session_id.0, session));
            lemma_session_views_insert(old(self).sessions@, session_id.0, session);
        }
        match added {
            Err(e) => {
                proof {
                    assert(session_views(self.sessions@) =~= session_views(old(self).sessions@));
                    assert(self@ =~= old(self)@);
                }
                return Err(e);
            },
            Ok(()) => {},
        }
        self.events.push(Event::CounterflowRecorded { session: session_id, route: route_id, amount });
        proof {
            assert(self@ =~= record_counterflow_spec(old(self)@, session_id, route_id, amount).0);
        }
        Ok(())
    }

    pub fn cancel_intent(&mut self, intent_id: IntentId) -> (result: OrbitResult<()>)
        ensures
            (final(self)@, result) == cancel_intent_spec(old(self)@, intent_id),
            old(self)@.linked() ==> final(self)@.linked(),
            old(self)@.wf() ==> final(self)@.wf(),
            old(self)@.events.is_prefix_of(final(self)@.events),
            locks_balanced(old(self)@) ==> locks_balanced(final(self)@),
    {
        proof {
            if locks_balanced(self@) {
                lemma_cancel_intent_locks(self@, intent_id);
            }
        }
        proof {
            if self@.linked() {
                lemma_cancel_intent_wf(self@, intent_id);
            }
        }
        let queued = *self.intent(intent_id)?;
        if queued.status != IntentStatus::Pending {
            return Err(OrbitError::IntentNotPending);
        }
        let released = release_in(
            &mut self.vaults,
            queued.intent.source_vault,
            queued.intent.amount_in,
        );
        match released {
            Err(e) => {
                proof {
                    assert(self@ =~= cancel_intent_spec(old(self)@, intent_id).0);
                }
                return Err(e);
            },
            Ok(()) => {},
        }
        self.intents.insert(intent_id.0, QueuedIntent { status: IntentStatus::Cancelled, ..queued });
        self.events.push(Event::IntentCancelled { intent: intent_id });
        proof {
            assert(self@ =~= cancel_intent_spec(old(self)@, intent_id).0);
        }
        Ok(())
    }

    fn fee_split(gross_out: Amount, route: &RouteConfig) -> (result: OrbitResult<(Amount, Amount)>)
        ensures
            result == fee_split(gross_out, *route),
    {
        let bps = route.total_fee_bps()?;
        let fee = gross_out.mul_bps_floor(bps)?;
        let net_out = gross_out.checked_sub(fee)?;
        Ok((fee, net_out))
    }

    fn intent_quote(
        &self,
        owner: AccountId,
        recipient: AccountId,
        route_id: RouteId,
        amount_in: Amount,
        min_amount_out: Amount,
    ) -> (result: OrbitResult<(RouteConfig, Amount, Amount)>)
        ensures
            result == intent_quote(self@, owner, recipient, route_id, amount_in, min_amount_out),
    {
        self.account(owner)?;
        self.account(recipient)?;
        let route = self.routes.get(route_id)?;
        let source_price = self.oracle.price(route.source_asset)?;
        let target_price = self.oracle.price(route.target_asset)?;
        if source_price.confidence_bps < route.min_confidence_bps || target_price.confidence_bps
            < route.min_confidence_bps {
            return Err(OrbitError::PriceConfidence);
        }
        let gross_out = self.oracle.quote(
            &self.assets,
            route.source_asset,
            route.target_asset,
            amount_in,
        )?;
        let (fee, net_out) = Self::fee_split(gross_out, route)?;
        if net_out.0 < min_amount_out.0 {
            return Err(OrbitError::MinimumOutput);
        }
        Ok((copy_route(route), gross_out, fee))
    }

    pub fn submit_intent(
        &mut self,
        owner: AccountId,
        recipient: AccountId,
        route_id: RouteId,
        amount_in: Amount,
        min_amount_out: Amount,
        deadline_slot: u64,
        nonce: u64,
    ) -> (result: OrbitResult<IntentId>)
        requires
            submit_intent_spec(
                old(self)@,
                owner,
                recipient,
                route_id,
                amount_in,
                min_amount_out,
                deadline_slot,
                nonce,
            ).1 is Ok ==> old(self)@.next_intent < u64::MAX,
        ensures
            (final(self)@, result) == submit_intent_spec(
                old(self)@,
                owner,
                recipient,
                route_id,
                amount_in,
                min_amount_out,
                deadline_slot,
                nonce,
            ),
            old(self)@.linked() ==> final(self)@.linked(),
            old(self)@.wf() ==> final(self)@.wf(),
            old(self)@.events.is_prefix_of(final(self)@.events),
            !old(self)@.intents.contains_key(old(self)@.next_intent) && locks_balanced(old(self)@)
                ==> locks_balanced(final(self)@),
    {
        proof {
            if !self@.intents.contains_key(self@.next_intent) && locks_balanced(self@) {
                lemma_submit_intent_locks(
                    self@,
                    owner,
                    recipient,
                    route_id,
                    amount_in,
                    min_amount_out,
                    deadline_slot,
                    nonce,
                );
            }
        }
        proof {
            if self@.linked() {
                lemma_submit_intent_wf(
                    self@,
                    owner,
                    recipient,
                    route_id,
                    amount_in,
                    min_amount_out,
                    deadline_slot,
                    nonce,
                );
            }
        }
        let (route, gross_out, fee) = self.intent_quote(
            owner,
            recipient,
            route_id,
            amount_in,
            min_amount_out,
        )?;
        let locked = reserve_in(&mut self.vaults, route.source_vault, amount_in);
        match locked {
            Err(e) => {
                proof {
                    assert(self@ =~= submit_intent_spec(
                        old(self)@,
                        owner,
                        recipient,
                        route_id,
                        amount_in,
                        min_amount_out,
                        deadline_slot,
                        nonce,
                    ).0);
                }
                return Err(e);
            },
            Ok(()) => {},
        }
        let id = IntentId::new(self.next_intent);
        self.next_intent = self.next_intent + 1;
        let intent = TransferIntent {
            id,
            owner,
            recipient,
            source_asset: route.source_asset,
            target_asset: route.target_asset,
            source_vault: route.source_vault,
            target_vault: route.target_vault,
            route: route_id,
            amount_in,
            min_amount_out,
            deadline_slot,
            nonce,
        };
        self.intents.insert(id.0, QueuedIntent::new(intent, gross_out, fee, self.slot));
        self.events.push(
            Event::IntentQueued { intent: id, route: route_id, amount_in, quoted_out: gross_out },
        );
        proof {
            assert(self@ =~= submit_intent_spec(
                old(self)@,
                owner,
                recipient,
                route_id,
                amount_in,
                min_amount_out,
                deadline_slot,
                nonce,
            ).0);
        }
        Ok(id)
    }

    fn settle_quote(&self, intent_id: IntentId) -> (result: OrbitResult<
        (TransferIntent, RouteConfig, Amount, Amount, Amount),
    >)
        ensures
            result == settle_quote(self@, intent_id),
    {
        let queued = self.intent(intent_id)?;
        if queued.status != IntentStatus::Pending {
            return Err(OrbitError::IntentNotPending);
        }
        let intent = queued.intent;
        let route = self.routes.get(intent.route)?;
        if intent.deadline_slot < self.slot {
            return Err(OrbitError::IntentNotPending);
        }
        let gross_out = self.oracle.quote(
            &self.assets,
            intent.source_asset,
            intent.target_asset,
            intent.amount_in,
        )?;
        let (fee, net_out) = Self::fee_split(gross_out, route)?;
        if net_out.0 < intent.min_amount_out.0 {
            return Err(OrbitError::MinimumOutput);
        }
        Ok((intent, copy_route(route), gross_out, fee, net_out))
    }

    fn settle_record(
        &mut self,
        session_id: SessionId,
        intent_id: IntentId,
        intent: TransferIntent,
        gross_out: Amount,
        fee: Amount,
        net_out: Amount,
        counterflow_credit: Amount,
    ) -> (result: OrbitResult<TxId>)
        requires
            old(self)@.next_tx < u64::MAX,
            old(self)@.slot < u64::MAX,
            old(self)@.intents.contains_key(intent_id.0),
            old(self)@.sessions.contains_key(session_id.0),
        ensures
            (final(self)@, result) == settle_record_spec(
                old(self)@,
                session_id,
                intent_id,
                intent,
                gross_out,
                fee,
                net_out,
                counterflow_credit,
            ),
    {
        let tx = TxId::new(self.next_tx);
        self.next_tx = self.next_tx + 1;
        let queued = match self.intents.get(&intent_id.0) {
            Some(queued) => *queued,
            None => {
                assert(false);
                return Err(OrbitError::IntentNotFound);
            },
        };
        self.intents.insert(intent_id.0, QueuedIntent { status: IntentStatus::Settled, ..queued });
        include_in(&mut self.sessions, session_id, intent_id);
        self.events.push(
            Event::IntentSettled {
                tx,
                session: session_id,
                intent: intent_id,
                recipient: intent.recipient,
                target_asset: intent.target_asset,
                gross_out,
                net_out,
                fee,
                counterflow_credit,
            },
        );
        self.slot = self.slot + 1;
        proof {
            assert(self@ =~= settle_record_spec(
                old(self)@,
                session_id,
                intent_id,
                intent,
                gross_out,
                fee,
                net_out,
                counterflow_credit,
            ).0);
        }
        Ok(tx)
    }

    fn settle_payout(
        &mut self,
        session_id: SessionId,
        intent_id: IntentId,
        intent: TransferIntent,
        route: &RouteConfig,
        gross_out: Amount,
        fee: Amount,
        net_out: Amount,
        counterflow_credit: Amount,
    ) -> (result: OrbitResult<TxId>)
        requires
            settle_payout_spec(
                old(self)@,
                session_id,
                intent_id,
                intent,
                *route,
                gross_out,
                fee,
                net_out,
                counterflow_credit,
            ).1 is Ok ==> old(self)@.next_tx < u64::MAX && old(self)@.slot < u64::MAX,
            old(self)@.intents.contains_key(intent_id.0),
            old(self)@.sessions.contains_key(session_id.0),
        ensures
            (final(self)@, result) == settle_payout_spec(
                old(self)@,
                session_id,
                intent_id,
                intent,
                *route,
                gross_out,
                fee,
                net_out,
                counterflow_credit,
            ),
    {
        let ghost expected = settle_payout_spec(
            old(self)@,
            session_id,
            intent_id,
            intent,
            *route,
            gross_out,
            fee,
            net_out,
            counterflow_credit,
        );
        let authorized = self.risk.authorize(route, intent.owner, gross_out, counterflow_credit);
        if let Err(e) = authorized {
            assert(self@ =~= expected.0);
            return Err(e);
        }
        let consumed = consume_in(&mut self.vaults, intent.source_vault, intent.amount_in);
        if let Err(e) = consumed {
            assert(self@ =~= expected.0);
            return Err(e);
        }
        let paid = pay_out_in(&mut self.vaults, intent.target_vault, gross_out);
        if let Err(e) = paid {
            assert(self@ =~= expected.0);
            return Err(e);
        }
        let net_credited = credit_in(
            &mut self.accounts,
            intent.recipient,
            intent.target_asset,
            net_out,
        );
        if let Err(e) = net_credited {
            assert(self@ =~= expected.0);
            return Err(e);
        }
        let fee_credited = credit_in(&mut self.accounts, route.operator, intent.target_asset, fee);
        if let Err(e) = fee_credited {
            assert(self@ =~= expected.0);
            return Err(e);
        }
        self.settle_record(
            session_id,
            intent_id,
            intent,
            gross_out,
            fee,
            net_out,
            counterflow_credit,
        )
    }

    pub fn settle_intent(&mut self, session_id: SessionId, intent_id: IntentId) -> (result:
        OrbitResult<TxId>)
        requires
            settle_intent_spec(old(self)@, session_id, intent_id).1 is Ok ==> old(self)@.next_tx
                < u64::MAX && old(self)@.slot < u64::MAX,
        ensures
            (final(self)@, result) == settle_intent_spec(old(self)@, session_id, intent_id),
            old(self)@.linked() ==> final(self)@.linked(),
            old(self)@.wf() ==> final(self)@.wf(),
            old(self)@.events.is_prefix_of(final(self)@.events),
            locks_balanced(old(self)@) && (result is Ok || final(self)@.vaults == old(self)@.vaults)
                ==> locks_balanced(final(self)@),
    {
        proof {
            if locks_balanced(self@) {
                let outcome = settle_intent_spec(self@, session_id, intent_id);
                if outcome.1 is Ok || outcome.0.vaults == self@.vaults {
                    lemma_settle_intent_locks(self@, session_id, intent_id)
                };
            }
        }
        proof {
            if self@.linked() {
                lemma_settle_wf(self@, session_id, intent_id);
            }
        }
        let (intent, route, gross_out, fee, net_out) = self.settle_quote(intent_id)?;
        let allowed = allowance_in(&mut self.sessions, session_id, route.id, gross_out);
        let counterflow_credit = match allowed {
            Err(e) => {
                assert(self@ =~= settle_intent_spec(old(self)@, session_id, intent_id).0);
                return Err(e);
            },
            Ok(credit) => credit,
        };
        self.settle_payout(
            session_id,
            intent_id,
            intent,
            &route,
            gross_out,
            fee,
            net_out,
            counterflow_credit,
        )
    }

    /// Runs the demonstration scenario: two assets, two settlement vaults, a
    /// route between them, three intents of which one is cancelled, and a
    /// session that settles the other two against recorded counterflow.
    #[verifier::rlimit(60)]
    pub fn demo() -> (result: OrbitResult<DemoReport>)
        ensures
            result matches Ok(report) && {
                &&& report.accounts@.dom() == set![1u64, 2u64, 3u64]
                &&& report.accounts@[1]@.id == AccountId(1)
                &&& report.accounts@[1]@.label@ == "orbit-operator"@
                &&& report.accounts@[1]@.balances == map![2u64 => Amount(40_740_740)]
                &&& report.accounts@[2]@.id == AccountId(2)
                &&& report.accounts@[2]@.label@ == "market-maker-a"@
                &&& report.accounts@[2]@.balances == map![1u64 => Amount(35_000_000_000)]
                &&& report.accounts@[3]@.id == AccountId(3)
                &&& report.accounts@[3]@.label@ == "settlement-recipient-b"@
                &&& report.accounts@[3]@.balances == map![2u64 => Amount(20_329_629_630)]
                &&& report.vaults@.dom() == set![1u64, 2u64]
                &&& report.vaults@[1] == (Vault {
                    id: VaultId(1),
                    asset: AssetId(1),
                    controller: AccountId(1),
                    kind: VaultKind::Settlement,
                    reserve: Amount(578_000_000_000),
                    locked: Amount(0),
                    paid: Amount(22_000_000_000),
                    received: Amount(600_000_000_000),
                })
                &&& report.vaults@[2] == (Vault {
                    id: VaultId(2),
                    asset: AssetId(2),
                    controller: AccountId(1),
                    kind: VaultKind::Settlement,
                    reserve: Amount(504_629_629_630),
                    locked: Amount(0),
                    paid: Amount(20_370_370_370),
                    received: Amount(525_000_000_000),
                })
                &&& report.sessions@.dom() == set![1u64]
                &&& report.sessions@[1]@ == (SessionView {
                    id: SessionId(1),
                    opened_slot: 1,
                    closed: true,
                    counterflow: map![1u64 => Amount(10_500_000_000)],
                    accounted_counterflow: map![1u64 => Amount(19_759_259_259)],
                    included_intents: seq![IntentId(1), IntentId(2)],
                })
                &&& map_sum(report.accounts@, balance_count()) == 3
                &&& map_sum(report.vaults@, reserve_units()) == 1_082_629_629_630
                &&& report.events@.len() == 13
                &&& report.events@[0] matches Event::AssetRegistered { asset, symbol } && asset
                    == AssetId(1) && symbol@ == "oUSD"@
                &&& report.events@[1] matches Event::AssetRegistered { asset, symbol } && asset
                    == AssetId(2) && symbol@ == "oEUR"@
                &&& report.events@[2] == Event::VaultCreated {
                    vault: VaultId(1),
                    asset: AssetId(1),
                    controller: AccountId(1),
                }
                &&& report.events@[3] == Event::VaultCreated {
                    vault: VaultId(2),
                    asset: AssetId(2),
                    controller: AccountId(1),
                }
                &&& report.events@[4] == Event::RouteAdded {
                    route: RouteId(1),
                    source_vault: VaultId(1),
                    target_vault: VaultId(2),
                }
                &&& report.events@[5] == Event::IntentQueued {
                    intent: IntentId(1),
                    route: RouteId(1),
                    amount_in: Amount(12_000_000_000),
                    quoted_out: Amount(11_111_111_111),
                }
                &&& report.events@[6] == Event::IntentQueued {
                    intent: IntentId(2),
                    route: RouteId(1),
                    amount_in: Amount(10_000_000_000),
                    quoted_out: Amount(9_259_259_259),
                }
                &&& report.events@[7] == Event::IntentQueued {
                    intent: IntentId(3),
                    route: RouteId(1),
                    amount_in: Amount(2_000_000_000),
                    quoted_out: Amount(1_851_851_851),
                }
                &&& report.events@[8] == Event::IntentCancelled { intent: IntentId(3) }
                &&& report.events@[9] == Event::SessionOpened { session: SessionId(1), slot: 1 }
                &&& report.events@[10] == Event::CounterflowRecorded {
                    session: SessionId(1),
                    route: RouteId(1),
                    amount: Amount(10_500_000_000),
                }
                &&& report.events@[11] == Event::IntentSettled {
                    tx: TxId(1),
                    session: SessionId(1),
                    intent: IntentId(1),
                    recipient: AccountId(3),
                    target_asset: AssetId(2),
                    gross_out: Amount(11_111_111_111),
                    net_out: Amount(11_088_888_889),
                    fee: Amount(22_222_222),
                    counterflow_credit: Amount(10_500_000_000),
                }
                &&& report.events@[12] == Event::IntentSettled {
                    tx: TxId(2),
                    session: SessionId(1),
                    intent: IntentId(2),
                    recipient: AccountId(3),
                    target_asset: AssetId(2),
                    gross_out: Amount(9_259_259_259),
                    net_out: Amount(9_240_740_741),
                    fee: Amount(18_518_518),
                    counterflow_credit: Amount(9_259_259_259),
                }
            },
    {
        let mut ledger = Self::new();
        let operator = ledger.create_account("orbit-operator".to_string());
        let alice = ledger.create_account("market-maker-a".to_string());
        let bob = ledger.create_account("settlement-recipient-b".to_string());

        let usd = ledger.register_asset("oUSD".to_string(), 6, 1_000)?;
        let eur = ledger.register_asset("oEUR".to_string(), 6, 1_050)?;
        ledger.set_price(usd, 100_000_000, 9_950)?;
        ledger.set_price(eur, 108_000_000, 9_930)?;

        let usd_vault = ledger.create_vault(usd, operator, VaultKind::Settlement)?;
        let eur_vault = ledger.create_vault(eur, operator, VaultKind::Settlement)?;
        ledger.deposit_vault(usd_vault, Amount::new(600_000_000_000))?;
        ledger.deposit_vault(eur_vault, Amount::new(520_000_000_000))?;
        accrue_in(&mut ledger.vaults, eur_vault, Amount::new(5_000_000_000))?;
        ledger.credit_account(alice, usd, Amount::new(35_000_000_000))?;

        let route = ledger.add_route(
            RouteConfig {
                id: RouteId::new(0),
                name: "usd-eur-primary".to_string(),
                source_asset: usd,
                target_asset: eur,
                source_vault: usd_vault,
                target_vault: eur_vault,
                operator,
                fee_bps: 18,
                relayer_bps: 2,
                max_unhedged: Amount::new(16_000_000_000),
                session_limit: Amount::new(60_000_000_000),
                min_confidence_bps: 9_800,
                enabled: true,
            },
        )?;

        proof {
            reveal_with_fuel(crate::oracle::pow10, 7);
            assert(crate::oracle::pow10(6) == 1_000_000);
            assert((12_000_000_000int * 100_000_000_000_000int) / 108_000_000_000_000int
                == 11_111_111_111int);
            assert((10_000_000_000int * 100_000_000_000_000int) / 108_000_000_000_000int
                == 9_259_259_259int);
            assert((2_000_000_000int * 100_000_000_000_000int) / 108_000_000_000_000int
                == 1_851_851_851int);
        }
        let intent_a = ledger.submit_intent(
            alice,
            bob,
            route,
            Amount::new(12_000_000_000),
            Amount::new(11_050_000_000),
            100,
            1,
        )?;
        let intent_b = ledger.submit_intent(
            alice,
            bob,
            route,
            Amount::new(10_000_000_000),
            Amount::new(9_200_000_000),
            100,
            2,
        )?;
        let intent_c = ledger.submit_intent(
            alice,
            bob,
            route,
            Amount::new(2_000_000_000),
            Amount::new(1_800_000_000),
            100,
            3,
        )?;
        ledger.cancel_intent(intent_c)?;

        let session = ledger.open_session();
        ledger.record_counterflow(session, route, Amount::new(10_500_000_000))?;
        assert(intent_a == IntentId(1) && intent_b == IntentId(2) && session == SessionId(1));
        assert(route == RouteId(1));
        assert(ledger@.sessions[1].included_intents =~= Seq::<IntentId>::empty());
        assert(ledger@.sessions[1].counterflow =~= map![1u64 => Amount(10_500_000_000)]);
        assert(ledger@.sessions[1].accounted_counterflow =~= Map::<u64, Amount>::empty());
        ledger.settle_intent(session, intent_a)?;
        assert(ledger@.sessions[1].included_intents =~= seq![IntentId(1)]);
        assert(ledger@.sessions[1].counterflow =~= map![1u64 => Amount(10_500_000_000)]);
        assert(ledger@.sessions[1].accounted_counterflow =~= map![1u64 => Amount(10_500_000_000)]);
        ledger.settle_intent(session, intent_b)?;
        assert(ledger@.sessions[1].included_intents =~= seq![IntentId(1), IntentId(2)]);
        assert(ledger@.sessions[1].counterflow =~= map![1u64 => Amount(10_500_000_000)]);
        assert(ledger@.sessions[1].accounted_counterflow =~= map![
            1u64 => Amount(19_759_259_259),
        ]);
        assert(ledger@.sessions.contains_key(session.0));
        assert(ledger.sessions@.contains_key(session.0));
        close_in(&mut ledger.sessions, session)?;
        proof {
            assert(ledger@.accounts.dom() =~= set![1u64, 2u64, 3u64]);
            assert(ledger.accounts@.dom() =~= set![1u64, 2u64, 3u64]);
            assert(ledger.vaults@.dom() =~= set![1u64, 2u64]);
            assert(ledger@.sessions.dom() =~= set![1u64]);
            assert(ledger.sessions@.dom() =~= set![1u64]);
            assert(ledger.events@.len() == 13);
            assert(ledger@.accounts[1].balances =~= map![2u64 => Amount(40_740_740)]);
            assert(ledger@.accounts[2].balances =~= map![1u64 => Amount(35_000_000_000)]);
            assert(ledger@.accounts[3].balances =~= map![2u64 => Amount(20_329_629_630)]);
            assert(ledger@.accounts[1] == ledger.accounts@[1]@);
            assert(ledger@.accounts[2] == ledger.accounts@[2]@);
            assert(ledger@.accounts[3] == ledger.accounts@[3]@);
            let accounts = ledger.accounts@;
            assert(accounts.dom().finite());
            lemma_map_sum_remove(accounts, balance_count(), 1);
            lemma_map_sum_remove(accounts.remove(1), balance_count(), 2);
            lemma_map_sum_remove(accounts.remove(1).remove(2), balance_count(), 3);
            assert(accounts.remove(1).remove(2).remove(3).dom() =~= Set::<u64>::empty());
            lemma_map_sum_empty(accounts.remove(1).remove(2).remove(3), balance_count());
            let vaults = ledger.vaults@;
            lemma_map_sum_remove(vaults, reserve_units(), 1);
            lemma_map_sum_remove(vaults.remove(1), reserve_units(), 2);
            assert(vaults.remove(1).remove(2).dom() =~= Set::<u64>::empty());
            lemma_map_sum_empty(vaults.remove(1).remove(2), reserve_units());
            assert(ledger@.sessions[1].closed);
            assert(ledger@.sessions[1].included_intents =~= seq![IntentId(1), IntentId(2)]);
            assert(ledger@.sessions[1] == ledger.sessions@[1]@);
            assert(ledger.sessions@[1]@.closed);
            assert(ledger.sessions@[1]@.included_intents =~= seq![IntentId(1), IntentId(2)]);
            assert(ledger.sessions@[1]@.counterflow =~= map![1u64 => Amount(10_500_000_000)]);
            assert(ledger.sessions@[1]@.accounted_counterflow =~= map![
                1u64 => Amount(19_759_259_259),
            ]);
        }

        Ok(
            DemoReport {
                accounts: ledger.accounts,
                vaults: ledger.vaults,
                sessions: ledger.sessions,
                events: ledger.events,
            },
        )
    }

    fn account(&self, id: AccountId) -> (result: OrbitResult<&Account>)
        ensures
            match result {
                Ok(account) => self@.accounts.contains_key(id.0) && account@ == self@.accounts[id.0],
                Err(e) => !self@.accounts.contains_key(id.0) && e == OrbitError::AccountNotFound,
            },
    {
        match self.accounts.get(&id.0) {
            Some(account) => Ok(account),
            None => Err(OrbitError::AccountNotFound),
        }
    }

    fn vault(&self, id: VaultId) -> (result: OrbitResult<&Vault>)
        ensures
            match result {
                Ok(vault) => self@.vaults.contains_key(id.0) && *vault == self@.vaults[id.0],
                Err(e) => !self@.vaults.contains_key(id.0) && e == OrbitError::VaultNotFound,
            },
    {
        match self.vaults.get(&id.0) {
            Some(vault) => Ok(vault),
            None => Err(OrbitError::VaultNotFound),
        }
    }

    fn intent(&self, id: IntentId) -> (result: OrbitResult<&QueuedIntent>)
        ensures
            match result {
                Ok(queued) => self@.intents.contains_key(id.0) && *queued == self@.intents[id.0],
                Err(e) => !self@.intents.contains_key(id.0) && e == OrbitError::IntentNotFound,
            },
    {
        match self.intents.get(&id.0) {
            Some(queued) => Ok(queued),
            None => Err(OrbitError::IntentNotFound),
        }
    }
}

} // verus!
