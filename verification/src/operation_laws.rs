//! What single operations of the ledger do, stated directly over their inputs
//! and results: which inputs they accept, which they refuse and with what, and
//! by how much the amounts they touch move.

use vstd::prelude::*;

use crate::accounts::AccountView;
use crate::amount::{amount_at, min_amount, Amount};
use crate::asset::{asset_lookup, Asset, MAX_DECIMALS};
use crate::error::OrbitError;
use crate::events::Event;
use crate::ids::{AccountId, AssetId, IntentId, RouteId, SessionId, VaultId};
use crate::model::{
    add_route_spec, allowance_at, cancel_intent_spec, create_account_spec, create_vault_spec, credit_account_spec,
    deposit_vault_spec, fee_split, intent_quote, open_session_spec, record_counterflow_spec,
    register_asset_spec, set_price_spec, settle_intent_spec, settle_quote, submit_intent_spec,
    LedgerView,
};
use crate::oracle::{convert_result, pow10, price_lookup, quote_result, Price};
use crate::orders::IntentStatus;
use crate::risk::{authorize_spec, RiskView};
use crate::routes::RouteConfig;
use crate::session::SessionView;
use crate::vault::{Vault, VaultKind};

verus! {

/// A deposit goes to an existing vault of any kind: it is refused with
/// `VaultNotFound` when there is no such vault; it is accepted exactly when
/// the vault's reserve and its received total both still fit in a `u128`
/// after adding the amount, and then both grow by exactly the amount while
/// nothing else of the ledger changes.
pub proof fn deposit_raises_reserve_and_received(l: LedgerView, vault: VaultId, amount: Amount)
    ensures
        !l.vaults.contains_key(vault.0) ==> deposit_vault_spec(l, vault, amount) == (
            l,
            Err::<(), OrbitError>(OrbitError::VaultNotFound),
        ),
        deposit_vault_spec(l, vault, amount).1 is Ok <==> {
            &&& l.vaults.contains_key(vault.0)
            &&& l.vaults[vault.0].reserve.0 + amount.0 <= u128::MAX
            &&& l.vaults[vault.0].received.0 + amount.0 <= u128::MAX
        },
        deposit_vault_spec(l, vault, amount).1 is Ok ==> deposit_vault_spec(l, vault, amount).0 == (
        LedgerView {
            vaults: l.vaults.insert(
                vault.0,
                Vault {
                    reserve: Amount((l.vaults[vault.0].reserve.0 + amount.0) as u128),
                    received: Amount((l.vaults[vault.0].received.0 + amount.0) as u128),
                    ..l.vaults[vault.0]
                },
            ),
            ..l
        }),
{
}

/// Only an asset that is registered and enabled can be credited: an
/// unregistered asset is refused with `AssetNotFound` and a disabled one with
/// `AssetDisabled`, and the ledger is left as it was. The credit is accepted
/// exactly when the asset is enabled, the account exists and its balance of
/// the asset plus the amount fits in a `u128`; then that balance grows by
/// exactly the amount, every other balance stays, and nothing but the
/// account changes.
pub proof fn credit_needs_an_enabled_asset(
    l: LedgerView,
    account: AccountId,
    asset: AssetId,
    amount: Amount,
    other: u64,
)
    ensures
        !l.assets.contains_key(asset.0) ==> credit_account_spec(l, account, asset, amount) == (
            l,
            Err::<(), OrbitError>(OrbitError::AssetNotFound),
        ),
        l.assets.contains_key(asset.0) && !l.assets[asset.0].enabled ==> credit_account_spec(
            l,
            account,
            asset,
            amount,
        ) == (l, Err::<(), OrbitError>(OrbitError::AssetDisabled)),
        credit_account_spec(l, account, asset, amount).1 is Ok <==> {
            &&& l.assets.contains_key(asset.0)
            &&& l.assets[asset.0].enabled
            &&& l.accounts.contains_key(account.0)
            &&& amount_at(l.accounts[account.0].balances, asset.0).0 + amount.0 <= u128::MAX
        },
        credit_account_spec(l, account, asset, amount).1 is Ok ==> {
            let after = credit_account_spec(l, account, asset, amount).0;
            &&& after.accounts.contains_key(account.0)
            &&& amount_at(after.accounts[account.0].balances, asset.0).0 == amount_at(
                l.accounts[account.0].balances,
                asset.0,
            ).0 + amount.0
            &&& other != asset.0 ==> amount_at(after.accounts[account.0].balances, other)
                == amount_at(l.accounts[account.0].balances, other)
            &&& after.accounts.remove(account.0) == l.accounts.remove(account.0)
            &&& after == (LedgerView { accounts: after.accounts, ..l })
        },
{
    let after = credit_account_spec(l, account, asset, amount).0;
    if credit_account_spec(l, account, asset, amount).1 is Ok {
        assert(after.accounts.remove(account.0) =~= l.accounts.remove(account.0));
    }
}

/// Counterflow recorded in a session adds up: a recording is accepted exactly
/// when the route exists and is enabled, the session exists, and the
/// session's counterflow on the route plus the amount fits in a `u128`. Then
/// the session's counterflow on that route grows by exactly the amount, its
/// counterflow on every other route stays, and every other session stays. A
/// refused recording changes nothing.
pub proof fn recorded_counterflow_adds_up(
    l: LedgerView,
    session: SessionId,
    route: RouteId,
    amount: Amount,
    other: u64,
)
    ensures
        record_counterflow_spec(l, session, route, amount).1 is Ok <==> {
            &&& l.routes.contains_key(route.0)
            &&& l.routes[route.0].enabled
            &&& l.sessions.contains_key(session.0)
            &&& amount_at(l.sessions[session.0].counterflow, route.0).0 + amount.0 <= u128::MAX
        },
        record_counterflow_spec(l, session, route, amount).1 is Err ==> record_counterflow_spec(
            l,
            session,
            route,
            amount,
        ).0 == l,
        record_counterflow_spec(l, session, route, amount).1 is Ok ==> {
            let after = record_counterflow_spec(l, session, route, amount).0;
            &&& after.sessions.contains_key(session.0)
            &&& amount_at(after.sessions[session.0].counterflow, route.0).0 == amount_at(
                l.sessions[session.0].counterflow,
                route.0,
            ).0 + amount.0
            &&& other != route.0 ==> amount_at(after.sessions[session.0].counterflow, other)
                == amount_at(l.sessions[session.0].counterflow, other)
            &&& after.sessions[session.0].accounted_counterflow
                == l.sessions[session.0].accounted_counterflow
            &&& after.sessions[session.0].included_intents == l.sessions[session.0].included_intents
            &&& after.sessions[session.0].closed == l.sessions[session.0].closed
            &&& after.sessions.remove(session.0) == l.sessions.remove(session.0)
            &&& after.vaults == l.vaults
            &&& after.accounts == l.accounts
            &&& after.intents == l.intents
            &&& after.events == l.events.push(
                Event::CounterflowRecorded { session, route, amount },
            )
        },
{
    let after = record_counterflow_spec(l, session, route, amount).0;
    if record_counterflow_spec(l, session, route, amount).1 is Ok {
        assert(after.sessions.remove(session.0) =~= l.sessions.remove(session.0));
    }
}

/// A submission is refused with `PriceConfidence`, and changes nothing, when
/// the owner and recipient have accounts, the route exists and is enabled,
/// both of its assets have a price, and the price of its source asset or of
/// its target asset is less confident than the route demands.
pub proof fn unconfident_price_refuses_submission(
    l: LedgerView,
    owner: AccountId,
    recipient: AccountId,
    route_id: RouteId,
    amount_in: Amount,
    min_amount_out: Amount,
    deadline_slot: u64,
    nonce: u64,
)
    requires
        l.accounts.contains_key(owner.0),
        l.accounts.contains_key(recipient.0),
        l.routes.contains_key(route_id.0),
        l.routes[route_id.0].enabled,
        l.prices.contains_key(l.routes[route_id.0].source_asset.0),
        l.prices.contains_key(l.routes[route_id.0].target_asset.0),
        l.prices[l.routes[route_id.0].source_asset.0].confidence_bps
            < l.routes[route_id.0].min_confidence_bps || l.prices[l.routes[
            route_id.0
        ].target_asset.0].confidence_bps < l.routes[route_id.0].min_confidence_bps,
    ensures
        submit_intent_spec(
            l,
            owner,
            recipient,
            route_id,
            amount_in,
            min_amount_out,
            deadline_slot,
            nonce,
        ) == (l, Err::<IntentId, OrbitError>(OrbitError::PriceConfidence)),
{
}

/// An accepted submission went through an enabled route whose two assets are
/// priced at least as confidently as the route demands. The intent is queued
/// pending under the next intent id with what was asked of it; its quote is
/// the worth of its input at the current prices, its quoted fee is
/// `floor(quote * (fee_bps + relayer_bps) / 10_000)`, the quote less that fee
/// reaches the minimum asked for; and the route's source vault locks exactly
/// the input on top of what it had locked.
pub proof fn accepted_submission_is_quoted_at_confident_prices(
    l: LedgerView,
    owner: AccountId,
    recipient: AccountId,
    route_id: RouteId,
    amount_in: Amount,
    min_amount_out: Amount,
    deadline_slot: u64,
    nonce: u64,
)
    requires
        submit_intent_spec(
            l,
            owner,
            recipient,
            route_id,
            amount_in,
            min_amount_out,
            deadline_slot,
            nonce,
        ).1 is Ok,
    ensures
        ({
            let (after, result) = submit_intent_spec(
                l,
                owner,
                recipient,
                route_id,
                amount_in,
                min_amount_out,
                deadline_slot,
                nonce,
            );
            let route = l.routes[route_id.0];
            let src = route.source_asset.0;
            let tgt = route.target_asset.0;
            let id = result->Ok_0;
            let q = after.intents[id.0];
            &&& l.accounts.contains_key(owner.0)
            &&& l.accounts.contains_key(recipient.0)
            &&& l.routes.contains_key(route_id.0)
            &&& route.enabled
            &&& l.prices.contains_key(src)
            &&& l.prices[src].confidence_bps >= route.min_confidence_bps
            &&& l.prices.contains_key(tgt)
            &&& l.prices[tgt].confidence_bps >= route.min_confidence_bps
            &&& id == IntentId(l.next_intent)
            &&& after.intents.contains_key(id.0)
            &&& q.status == IntentStatus::Pending
            &&& q.intent.owner == owner
            &&& q.intent.recipient == recipient
            &&& q.intent.route == route_id
            &&& q.intent.amount_in == amount_in
            &&& q.intent.min_amount_out == min_amount_out
            &&& q.intent.source_asset == route.source_asset
            &&& q.intent.target_asset == route.target_asset
            &&& q.intent.source_vault == route.source_vault
            &&& q.intent.target_vault == route.target_vault
            &&& q.intent.id == id
            &&& q.intent.deadline_slot == deadline_slot
            &&& q.intent.nonce == nonce
            &&& q.created_slot == l.slot
            &&& after.intents.remove(id.0) == l.intents.remove(id.0)
            &&& after.events == l.events.push(
                Event::IntentQueued {
                    intent: id,
                    route: route_id,
                    amount_in,
                    quoted_out: q.quoted_amount_out,
                },
            )
            &&& after.accounts == l.accounts
            &&& quote_result(l.assets, l.prices, src, tgt, amount_in) == Ok::<Amount, OrbitError>(
                q.quoted_amount_out,
            )
            &&& route.fee_bps + route.relayer_bps <= u16::MAX
            &&& q.quoted_fee.0 == q.quoted_amount_out.0 * (route.fee_bps + route.relayer_bps)
                / 10_000
            &&& q.quoted_fee.0 <= q.quoted_amount_out.0
            &&& q.quoted_amount_out.0 - q.quoted_fee.0 >= min_amount_out.0
            &&& l.vaults.contains_key(route.source_vault.0)
            &&& after.vaults[route.source_vault.0].locked.0 == l.vaults[route.source_vault.0].locked.0
                + amount_in.0
            &&& after.vaults[route.source_vault.0].reserve == l.vaults[route.source_vault.0].reserve
        }),
{
    let (route, gross, fee) = intent_quote(
        l,
        owner,
        recipient,
        route_id,
        amount_in,
        min_amount_out,
    )->Ok_0;
    assert(fee_split(gross, route) is Ok);
    let after = submit_intent_spec(
        l,
        owner,
        recipient,
        route_id,
        amount_in,
        min_amount_out,
        deadline_slot,
        nonce,
    ).0;
    assert(after.intents.remove(l.next_intent) =~= l.intents.remove(l.next_intent));
}

/// A refused submission changes nothing: no intent is queued, nothing is
/// locked and nothing is logged.
pub proof fn refused_submission_changes_nothing(
    l: LedgerView,
    owner: AccountId,
    recipient: AccountId,
    route_id: RouteId,
    amount_in: Amount,
    min_amount_out: Amount,
    deadline_slot: u64,
    nonce: u64,
)
    requires
        submit_intent_spec(
            l,
            owner,
            recipient,
            route_id,
            amount_in,
            min_amount_out,
            deadline_slot,
            nonce,
        ).1 is Err,
    ensures
        submit_intent_spec(
            l,
            owner,
            recipient,
            route_id,
            amount_in,
            min_amount_out,
            deadline_slot,
            nonce,
        ).0 == l,
{
    if let Ok((route, gross, fee)) = intent_quote(
        l,
        owner,
        recipient,
        route_id,
        amount_in,
        min_amount_out,
    ) {
        let sv = route.source_vault.0;
        if l.vaults.contains_key(sv) {
            assert(l.vaults.insert(sv, l.vaults[sv]) =~= l.vaults);
        }
    }
}

/// A successful settlement pays at the prices of the moment it settles: the
/// gross payout it logs is the worth of the intent's input at the ledger's
/// current prices, the fee is `floor(gross * (fee_bps + relayer_bps) /
/// 10_000)` of the intent's route, and the net payout is the rest. The source
/// vault gives up the locked input (it leaves the lock and the reserve and
/// counts as paid), and when the target vault is another vault it pays the
/// gross payout out of its reserve.
pub proof fn settlement_pays_at_current_prices(l: LedgerView, session: SessionId, intent: IntentId)
    requires
        settle_intent_spec(l, session, intent).1 is Ok,
    ensures
        ({
            let after = settle_intent_spec(l, session, intent).0;
            let t = l.intents[intent.0].intent;
            let route = l.routes[t.route.0];
            let sv = t.source_vault.0;
            let tv = t.target_vault.0;
            &&& l.intents.contains_key(intent.0)
            &&& l.routes.contains_key(t.route.0)
            &&& after.events.last() matches Event::IntentSettled { gross_out, fee, net_out, .. } && {
                &&& quote_result(
                    l.assets,
                    l.prices,
                    t.source_asset.0,
                    t.target_asset.0,
                    t.amount_in,
                ) == Ok::<Amount, OrbitError>(gross_out)
                &&& route.fee_bps + route.relayer_bps <= u16::MAX
                &&& fee.0 == gross_out.0 * (route.fee_bps + route.relayer_bps) / 10_000
                &&& net_out.0 + fee.0 == gross_out.0
                &&& sv != tv ==> {
                    &&& l.vaults.contains_key(tv)
                    &&& after.vaults[tv].reserve.0 == l.vaults[tv].reserve.0 - gross_out.0
                    &&& after.vaults[tv].paid.0 == l.vaults[tv].paid.0 + gross_out.0
                    &&& after.vaults[tv].locked == l.vaults[tv].locked
                }
            }
            &&& l.vaults.contains_key(sv)
            &&& after.vaults[sv].locked.0 == l.vaults[sv].locked.0 - t.amount_in.0
            &&& sv != tv ==> {
                &&& after.vaults[sv].reserve.0 == l.vaults[sv].reserve.0 - t.amount_in.0
                &&& after.vaults[sv].paid.0 == l.vaults[sv].paid.0 + t.amount_in.0
            }
        }),
{
    let (t, route, gross, fee, net) = settle_quote(l, intent)->Ok_0;
    assert(fee_split(gross, route) is Ok);
}

/// A new account gets the next account id, the given label and no balance;
/// every other account stays as it was and nothing else changes but the
/// counter of account ids.
pub proof fn new_account_is_empty(l: LedgerView, label: String)
    requires
        l.next_account < u64::MAX,
    ensures
        ({
            let (after, id) = create_account_spec(l, label);
            &&& id == AccountId(l.next_account)
            &&& after.accounts.contains_key(id.0)
            &&& after.accounts[id.0] == (AccountView { id, label, balances: Map::empty() })
            &&& after.accounts.remove(id.0) == l.accounts.remove(id.0)
            &&& after.next_account == l.next_account + 1
            &&& after == (LedgerView {
                accounts: after.accounts,
                next_account: after.next_account,
                ..l
            })
        }),
{
    let (after, id) = create_account_spec(l, label);
    assert(after.accounts.remove(id.0) =~= l.accounts.remove(id.0));
}

/// Registering an asset always uses up the next asset id. An asset with more
/// than [`MAX_DECIMALS`] decimals is refused with `AmountOverflow` and nothing
/// else changes; any other is registered enabled under that id with the
/// given symbol, decimals and risk weight, every other asset stays, and the
/// registration is logged.
pub proof fn registered_asset_is_enabled_under_the_next_id(
    l: LedgerView,
    symbol: String,
    decimals: u8,
    risk_weight_bps: u16,
)
    requires
        l.next_asset < u64::MAX,
    ensures
        ({
            let (after, result) = register_asset_spec(l, symbol, decimals, risk_weight_bps);
            let id = AssetId(l.next_asset);
            &&& after.next_asset == l.next_asset + 1
            &&& decimals > MAX_DECIMALS ==> {
                &&& result == Err::<AssetId, OrbitError>(OrbitError::AmountOverflow)
                &&& after == (LedgerView { next_asset: after.next_asset, ..l })
            }
            &&& decimals <= MAX_DECIMALS ==> {
                &&& result == Ok::<AssetId, OrbitError>(id)
                &&& asset_lookup(after.assets, id.0) == Ok::<Asset, OrbitError>(
                    Asset { id, symbol, decimals, risk_weight_bps, enabled: true },
                )
                &&& after.assets.remove(id.0) == l.assets.remove(id.0)
                &&& after.events == l.events.push(Event::AssetRegistered { asset: id, symbol })
                &&& after.vaults == l.vaults
                &&& after.accounts == l.accounts
                &&& after.prices == l.prices
            }
        }),
{
    let (after, result) = register_asset_spec(l, symbol, decimals, risk_weight_bps);
    assert(after.assets.remove(l.next_asset) =~= l.assets.remove(l.next_asset));
}

/// A price can be set only for a registered, enabled asset; otherwise the
/// lookup's refusal comes back and nothing changes. A price that is set is
/// the one the asset then has, stamped with the current slot; every other
/// asset's price stays and nothing else changes.
pub proof fn set_price_is_the_price_read_back(
    l: LedgerView,
    asset: AssetId,
    price_e8: u128,
    confidence_bps: u16,
)
    ensures
        !l.assets.contains_key(asset.0) ==> set_price_spec(l, asset, price_e8, confidence_bps) == (
            l,
            Err::<(), OrbitError>(OrbitError::AssetNotFound),
        ),
        l.assets.contains_key(asset.0) && !l.assets[asset.0].enabled ==> set_price_spec(
            l,
            asset,
            price_e8,
            confidence_bps,
        ) == (l, Err::<(), OrbitError>(OrbitError::AssetDisabled)),
        set_price_spec(l, asset, price_e8, confidence_bps).1 is Ok <==> l.assets.contains_key(asset.0)
            && l.assets[asset.0].enabled,
        set_price_spec(l, asset, price_e8, confidence_bps).1 is Ok ==> {
            let after = set_price_spec(l, asset, price_e8, confidence_bps).0;
            &&& price_lookup(after.prices, asset.0) == Ok::<Price, OrbitError>(
                Price { asset, price_e8, confidence_bps, slot: l.slot },
            )
            &&& after.prices.remove(asset.0) == l.prices.remove(asset.0)
            &&& after == (LedgerView { prices: after.prices, ..l })
        },
{
    let after = set_price_spec(l, asset, price_e8, confidence_bps).0;
    assert(after.prices.remove(asset.0) =~= l.prices.remove(asset.0));
}

/// A vault is created only for a registered, enabled asset (else the asset
/// lookup's refusal) and an existing controller (else `AccountNotFound`), in
/// that order. A created vault is empty, of the given asset, controller and
/// kind, under the next vault id; every other vault stays, and the creation
/// is logged.
pub proof fn created_vault_is_empty(
    l: LedgerView,
    asset: AssetId,
    controller: AccountId,
    kind: VaultKind,
)
    ensures
        !l.assets.contains_key(asset.0) ==> create_vault_spec(l, asset, controller, kind) == (
            l,
            Err::<VaultId, OrbitError>(OrbitError::AssetNotFound),
        ),
        l.assets.contains_key(asset.0) && !l.assets[asset.0].enabled ==> create_vault_spec(
            l,
            asset,
            controller,
            kind,
        ) == (l, Err::<VaultId, OrbitError>(OrbitError::AssetDisabled)),
        l.assets.contains_key(asset.0) && l.assets[asset.0].enabled && !l.accounts.contains_key(
            controller.0,
        ) ==> create_vault_spec(l, asset, controller, kind) == (
            l,
            Err::<VaultId, OrbitError>(OrbitError::AccountNotFound),
        ),
        create_vault_spec(l, asset, controller, kind).1 is Ok <==> {
            &&& l.assets.contains_key(asset.0)
            &&& l.assets[asset.0].enabled
            &&& l.accounts.contains_key(controller.0)
        },
        create_vault_spec(l, asset, controller, kind).1 is Ok ==> {
            let (after, result) = create_vault_spec(l, asset, controller, kind);
            let id = VaultId(l.next_vault);
            &&& result == Ok::<VaultId, OrbitError>(id)
            &&& after.vaults.contains_key(id.0)
            &&& after.vaults[id.0] == (Vault {
                id,
                asset,
                controller,
                kind,
                reserve: Amount(0),
                locked: Amount(0),
                paid: Amount(0),
                received: Amount(0),
            })
            &&& after.vaults.remove(id.0) == l.vaults.remove(id.0)
            &&& after.events == l.events.push(Event::VaultCreated { vault: id, asset, controller })
            &&& after.accounts == l.accounts
            &&& after.intents == l.intents
        },
{
    let after = create_vault_spec(l, asset, controller, kind).0;
    assert(after.vaults.remove(l.next_vault) =~= l.vaults.remove(l.next_vault));
}

/// A route is added exactly when both of its assets are registered and
/// enabled, both of its vaults exist and hold those assets, and its operator
/// has an account. It is then stored, with the next route id in place of the
/// one it came with and otherwise as given; every other route stays.
pub proof fn added_route_is_stored_under_the_next_id(l: LedgerView, route: RouteConfig)
    ensures
        add_route_spec(l, route).1 is Ok <==> {
            &&& asset_lookup(l.assets, route.source_asset.0) is Ok
            &&& asset_lookup(l.assets, route.target_asset.0) is Ok
            &&& l.vaults.contains_key(route.source_vault.0)
            &&& l.vaults.contains_key(route.target_vault.0)
            &&& l.vaults[route.source_vault.0].asset == route.source_asset
            &&& l.vaults[route.target_vault.0].asset == route.target_asset
            &&& l.accounts.contains_key(route.operator.0)
        },
        add_route_spec(l, route).1 is Err ==> add_route_spec(l, route).0 == l,
        add_route_spec(l, route).1 is Ok ==> {
            let (after, result) = add_route_spec(l, route);
            let id = RouteId(l.next_route);
            &&& result == Ok::<RouteId, OrbitError>(id)
            &&& after.routes.contains_key(id.0)
            &&& after.routes[id.0] == (RouteConfig { id, ..route })
            &&& after.routes.remove(id.0) == l.routes.remove(id.0)
            &&& after.vaults == l.vaults
            &&& after.accounts == l.accounts
            &&& after.events == l.events.push(
                Event::RouteAdded {
                    route: id,
                    source_vault: route.source_vault,
                    target_vault: route.target_vault,
                },
            )
        },
{
    let after = add_route_spec(l, route).0;
    assert(after.routes.remove(l.next_route) =~= l.routes.remove(l.next_route));
}

/// A new session gets the next session id, opens at the current slot, is
/// not closed, and has recorded and accounted no counterflow and included no
/// intent; every other session stays, and the opening is logged.
pub proof fn opened_session_is_fresh(l: LedgerView)
    ensures
        ({
            let (after, id) = open_session_spec(l);
            &&& id == SessionId(l.next_session)
            &&& after.sessions.contains_key(id.0)
            &&& after.sessions[id.0] == (SessionView {
                id,
                opened_slot: l.slot,
                closed: false,
                counterflow: Map::empty(),
                accounted_counterflow: Map::empty(),
                included_intents: Seq::empty(),
            })
            &&& after.sessions.remove(id.0) == l.sessions.remove(id.0)
            &&& after.events == l.events.push(Event::SessionOpened { session: id, slot: l.slot })
            &&& after.vaults == l.vaults
            &&& after.accounts == l.accounts
            &&& after.intents == l.intents
        }),
{
    let (after, id) = open_session_spec(l);
    assert(after.sessions.remove(id.0) =~= l.sessions.remove(id.0));
}

/// A settlement offsets its payout by the counterflow recorded on the route
/// (under the id its configuration carries) in the session: the credit it logs is the smaller of that counterflow and
/// the gross payout, the session's accounted counterflow on the route grows
/// by exactly that credit, and the recorded counterflow itself is not drawn
/// down.
pub proof fn settlement_accounts_counterflow(l: LedgerView, session: SessionId, intent: IntentId)
    requires
        settle_intent_spec(l, session, intent).1 is Ok,
    ensures
        ({
            let after = settle_intent_spec(l, session, intent).0;
            let t = l.intents[intent.0].intent;
            let key = l.routes[t.route.0].id.0;
            let s = l.sessions[session.0];
            &&& l.sessions.contains_key(session.0)
            &&& after.sessions.contains_key(session.0)
            &&& after.sessions[session.0].counterflow == s.counterflow
            &&& after.events.last() matches Event::IntentSettled {
                gross_out,
                counterflow_credit,
                session: logged,
                ..
            } && {
                &&& logged == session
                &&& counterflow_credit == min_amount(amount_at(s.counterflow, key), gross_out)
                &&& amount_at(after.sessions[session.0].accounted_counterflow, key).0
                    == amount_at(s.accounted_counterflow, key).0 + counterflow_credit.0
            }
        }),
{
    let (t, route, gross, fee, net) = settle_quote(l, intent)->Ok_0;
    assert(fee_split(gross, route) is Ok);
    let (sessions, allowed) = allowance_at(l.sessions, session.0, route.id.0, gross);
}

/// A pending intent whose deadline has passed cannot be settled: when its
/// route is still enabled, settling it in any session is refused with
/// `IntentNotPending` and changes nothing.
pub proof fn expired_intent_is_not_settled(l: LedgerView, session: SessionId, intent: IntentId)
    requires
        l.intents.contains_key(intent.0),
        l.intents[intent.0].status == IntentStatus::Pending,
        l.routes.contains_key(l.intents[intent.0].intent.route.0),
        l.routes[l.intents[intent.0].intent.route.0].enabled,
        l.intents[intent.0].intent.deadline_slot < l.slot,
    ensures
        settle_intent_spec(l, session, intent) == (
            l,
            Err::<crate::ids::TxId, OrbitError>(OrbitError::IntentNotPending),
        ),
{
}

/// A quote is the worth of the amount at the two prices, rounded down:
/// `floor(amount * p_s * 10^d_t / (p_t * 10^d_s))`, where `p` are the prices
/// and `d` the decimals of the source and target assets; a target price of
/// zero gives no quote.
pub proof fn quote_is_the_worth_at_the_prices(
    source_asset: Asset,
    target_asset: Asset,
    source_price: Price,
    target_price: Price,
    amount: Amount,
)
    ensures
        target_price.price_e8 == 0 ==> convert_result(
            source_asset,
            target_asset,
            source_price,
            target_price,
            amount,
        ) == Err::<Amount, OrbitError>(OrbitError::PriceNotAvailable),
        convert_result(source_asset, target_asset, source_price, target_price, amount) matches Ok(
            worth,
        ) ==> worth.0 == (amount.0 * source_price.price_e8 * pow10(target_asset.decimals as nat)) / (
        target_price.price_e8 * pow10(source_asset.decimals as nat)),
{
    if let Ok(worth) = convert_result(source_asset, target_asset, source_price, target_price, amount) {
        let a = amount.0 as int;
        let ps = source_price.price_e8 as int;
        let pt = target_price.price_e8 as int;
        let st = pow10(target_asset.decimals as nat) as int;
        let ss = pow10(source_asset.decimals as nat) as int;
        assert(a * (ps * st) == a * ps * st) by (nonlinear_arith);
    }
}

/// A quote is given only between registered, enabled assets that both have a
/// price, and is then the worth of the amount at those prices:
/// `floor(amount * p_s * 10^d_t / (p_t * 10^d_s))`, with a nonzero target
/// price.
pub proof fn quote_needs_priced_enabled_assets(
    assets: Map<u64, Asset>,
    prices: Map<u64, Price>,
    source: u64,
    target: u64,
    amount: Amount,
)
    ensures
        quote_result(assets, prices, source, target, amount) matches Ok(worth) ==> {
            &&& asset_lookup(assets, source) is Ok
            &&& asset_lookup(assets, target) is Ok
            &&& prices.contains_key(source)
            &&& prices.contains_key(target)
            &&& prices[target].price_e8 != 0
            &&& worth.0 == (amount.0 * prices[source].price_e8 * pow10(
                assets[target].decimals as nat,
            )) / (prices[target].price_e8 * pow10(assets[source].decimals as nat))
        },
{
    if let Ok(worth) = quote_result(assets, prices, source, target, amount) {
        quote_is_the_worth_at_the_prices(
            assets[source],
            assets[target],
            prices[source],
            prices[target],
            amount,
        );
    }
}

/// The risk engine authorizes a payout exactly when its unhedged part (what
/// counterflow does not offset) is within the route's limit, the route's
/// unhedged total in the session stays within the route's session limit, the
/// account's notional stays within its limit, and the session's notional
/// stays within its limit. An authorized payout grows the three exposures by
/// exactly the unhedged part, the payout and the payout; a refused one
/// changes nothing.
pub proof fn authorization_respects_every_limit(
    r: RiskView,
    route: RouteConfig,
    account: u64,
    payout: Amount,
    counterflow_credit: Amount,
)
    ensures
        ({
            let unhedged = if counterflow_credit.0 <= payout.0 {
                payout.0 - counterflow_credit.0
            } else {
                0
            };
            let (after, result) = authorize_spec(r, route, account, payout, counterflow_credit);
            &&& result is Ok <==> {
                &&& unhedged <= route.max_unhedged.0
                &&& amount_at(r.route_residual, route.id.0).0 + unhedged <= route.session_limit.0
                &&& amount_at(r.account_notional, account).0 + payout.0 <= r.max_account_notional.0
                &&& r.session_notional.0 + payout.0 <= r.max_session_notional.0
            }
            &&& result is Err ==> after == r
            &&& result is Ok ==> {
                &&& amount_at(after.route_residual, route.id.0).0 == amount_at(
                    r.route_residual,
                    route.id.0,
                ).0 + unhedged
                &&& amount_at(after.account_notional, account).0 == amount_at(
                    r.account_notional,
                    account,
                ).0 + payout.0
                &&& after.session_notional.0 == r.session_notional.0 + payout.0
                &&& after.max_account_notional == r.max_account_notional
                &&& after.max_session_notional == r.max_session_notional
            }
        }),
{
}

/// A settlement that would pay the recipient less than the intent's minimum is
/// refused with `MinimumOutput` and changes nothing: when the intent is
/// pending, its route enabled, its deadline not passed, and the fee
/// `floor(gross * (fee_bps + relayer_bps) / 10_000)` on the gross payout at
/// the current prices leaves a net payout below the minimum.
pub proof fn settlement_below_the_minimum_is_refused(
    l: LedgerView,
    session: SessionId,
    intent: IntentId,
    gross: Amount,
)
    requires
        l.intents.contains_key(intent.0),
        l.intents[intent.0].status == IntentStatus::Pending,
        l.routes.contains_key(l.intents[intent.0].intent.route.0),
        l.routes[l.intents[intent.0].intent.route.0].enabled,
        l.intents[intent.0].intent.deadline_slot >= l.slot,
        quote_result(
            l.assets,
            l.prices,
            l.intents[intent.0].intent.source_asset.0,
            l.intents[intent.0].intent.target_asset.0,
            l.intents[intent.0].intent.amount_in,
        ) == Ok::<Amount, OrbitError>(gross),
        l.routes[l.intents[intent.0].intent.route.0].fee_bps + l.routes[l.intents[
            intent.0
        ].intent.route.0].relayer_bps <= 10_000,
        gross.0 * (l.routes[l.intents[intent.0].intent.route.0].fee_bps + l.routes[l.intents[
            intent.0
        ].intent.route.0].relayer_bps) <= u128::MAX,
        gross.0 - gross.0 * (l.routes[l.intents[intent.0].intent.route.0].fee_bps + l.routes[
            l.intents[intent.0].intent.route.0
        ].relayer_bps) / 10_000 < l.intents[intent.0].intent.min_amount_out.0,
    ensures
        settle_intent_spec(l, session, intent) == (
            l,
            Err::<crate::ids::TxId, OrbitError>(OrbitError::MinimumOutput),
        ),
{
    let route = l.routes[l.intents[intent.0].intent.route.0];
    let bps = route.fee_bps + route.relayer_bps;
    assert(gross.0 * bps / 10_000 <= gross.0) by (nonlinear_arith)
        requires
            0 <= bps <= 10_000,
            0 <= gross.0,
    ;
}

/// A submission whose quote would pay the recipient less than the minimum is
/// refused with `MinimumOutput` and changes nothing: when the owner and
/// recipient have accounts, the route is enabled, both prices exist and are
/// confident enough, and the fee `floor(gross * (fee_bps + relayer_bps) /
/// 10_000)` on the gross payout at the current prices leaves a net payout
/// below the minimum.
pub proof fn submission_below_the_minimum_is_refused(
    l: LedgerView,
    owner: AccountId,
    recipient: AccountId,
    route_id: RouteId,
    amount_in: Amount,
    min_amount_out: Amount,
    deadline_slot: u64,
    nonce: u64,
    gross: Amount,
)
    requires
        l.accounts.contains_key(owner.0),
        l.accounts.contains_key(recipient.0),
        l.routes.contains_key(route_id.0),
        l.routes[route_id.0].enabled,
        l.prices.contains_key(l.routes[route_id.0].source_asset.0),
        l.prices.contains_key(l.routes[route_id.0].target_asset.0),
        l.prices[l.routes[route_id.0].source_asset.0].confidence_bps
            >= l.routes[route_id.0].min_confidence_bps,
        l.prices[l.routes[route_id.0].target_asset.0].confidence_bps
            >= l.routes[route_id.0].min_confidence_bps,
        quote_result(
            l.assets,
            l.prices,
            l.routes[route_id.0].source_asset.0,
            l.routes[route_id.0].target_asset.0,
            amount_in,
        ) == Ok::<Amount, OrbitError>(gross),
        l.routes[route_id.0].fee_bps + l.routes[route_id.0].relayer_bps <= 10_000,
        gross.0 * (l.routes[route_id.0].fee_bps + l.routes[route_id.0].relayer_bps) <= u128::MAX,
        gross.0 - gross.0 * (l.routes[route_id.0].fee_bps + l.routes[route_id.0].relayer_bps)
            / 10_000 < min_amount_out.0,
    ensures
        submit_intent_spec(
            l,
            owner,
            recipient,
            route_id,
            amount_in,
            min_amount_out,
            deadline_slot,
            nonce,
        ) == (l, Err::<IntentId, OrbitError>(OrbitError::MinimumOutput)),
{
    let route = l.routes[route_id.0];
    let bps = route.fee_bps + route.relayer_bps;
    assert(gross.0 * bps / 10_000 <= gross.0) by (nonlinear_arith)
        requires
            0 <= bps <= 10_000,
            0 <= gross.0,
    ;
}

/// Cancelling is accepted for a pending intent whose source vault exists and
/// has locked at least its input; the intent is then marked cancelled, its
/// source vault unlocks exactly its input and keeps its reserve, and the
/// cancellation is logged. An unknown intent is refused with
/// `IntentNotFound`, one that is no longer pending with `IntentNotPending`,
/// and either refusal changes nothing.
pub proof fn cancellation_unlocks_the_input(l: LedgerView, intent: IntentId)
    ensures
        !l.intents.contains_key(intent.0) ==> cancel_intent_spec(l, intent) == (
            l,
            Err::<(), OrbitError>(OrbitError::IntentNotFound),
        ),
        l.intents.contains_key(intent.0) && l.intents[intent.0].status != IntentStatus::Pending
            ==> cancel_intent_spec(l, intent) == (
            l,
            Err::<(), OrbitError>(OrbitError::IntentNotPending),
        ),
        cancel_intent_spec(l, intent).1 is Ok <==> {
            &&& l.intents.contains_key(intent.0)
            &&& l.intents[intent.0].status == IntentStatus::Pending
            &&& l.vaults.contains_key(l.intents[intent.0].intent.source_vault.0)
            &&& l.vaults[l.intents[intent.0].intent.source_vault.0].locked.0
                >= l.intents[intent.0].intent.amount_in.0
        },
        cancel_intent_spec(l, intent).1 is Ok ==> {
            let after = cancel_intent_spec(l, intent).0;
            let t = l.intents[intent.0].intent;
            &&& after.intents[intent.0].status == IntentStatus::Cancelled
            &&& after.intents[intent.0].intent == t
            &&& after.vaults[t.source_vault.0].locked.0 == l.vaults[t.source_vault.0].locked.0
                - t.amount_in.0
            &&& after.vaults[t.source_vault.0].reserve == l.vaults[t.source_vault.0].reserve
            &&& after.vaults.remove(t.source_vault.0) == l.vaults.remove(t.source_vault.0)
            &&& after.events == l.events.push(Event::IntentCancelled { intent })
            &&& after.accounts == l.accounts
        },
{
    let after = cancel_intent_spec(l, intent).0;
    if cancel_intent_spec(l, intent).1 is Ok {
        let sv = l.intents[intent.0].intent.source_vault.0;
        assert(after.vaults.remove(sv) =~= l.vaults.remove(sv));
    }
}

} // verus!
