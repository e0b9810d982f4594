//! Every operation of the ledger keeps its model well formed.

use vstd::prelude::*;

use crate::accounts::AccountView;
use crate::amount::Amount;
use crate::ids::{AccountId, AssetId, IntentId, RouteId, SessionId, VaultId};
use crate::model::{
    add_route_spec, allowance_at, cancel_intent_spec, consume_at, create_account_spec,
    create_vault_spec, credit_account_spec, credit_at, deposit_vault_spec, inflow_at, intent_fits,
    intent_quote, open_session_spec, pay_out_at, record_counterflow_spec, register_asset_spec,
    release_at, reserve_at, route_fits, set_price_spec, settle_intent_spec, settle_payout_spec,
    settle_quote, settle_record_spec, submit_intent_spec, LedgerView,
};
use crate::orders::TransferIntent;
use crate::risk::authorize_spec;
use crate::routes::RouteConfig;
use crate::session::{add_counterflow_spec, SessionView};
use crate::vault::{consume_spec, inflow_spec, pay_out_spec, release_spec, reserve_spec, Vault, VaultKind};

verus! {

// ---------------------------------------------------------------------------
// Every operation keeps the ledger well formed.
// ---------------------------------------------------------------------------

/// Growing the accounts and vaults, without touching the assets of existing
/// vaults, keeps every route and every intent fitting.
proof fn lemma_fits_grow(l: LedgerView, l2: LedgerView)
    requires
        l.linked(),
        l2.routes == l.routes,
        l2.intents == l.intents,
        forall|k: u64| #[trigger] l.accounts.contains_key(k) ==> l2.accounts.contains_key(k),
        forall|k: u64|
            #![trigger l.vaults.contains_key(k)]
            l.vaults.contains_key(k) ==> l2.vaults.contains_key(k) && l2.vaults[k].asset
                == l.vaults[k].asset,
    ensures
        forall|k: u64|
            #![trigger l2.routes.contains_key(k)]
            l2.routes.contains_key(k) ==> route_fits(l2, l2.routes[k]),
        forall|k: u64|
            #![trigger l2.intents.contains_key(k)]
            l2.intents.contains_key(k) ==> intent_fits(l2, l2.intents[k].intent),
{
    assert forall|k: u64|
        #![trigger l2.routes.contains_key(k)]
        l2.routes.contains_key(k) implies route_fits(
        l2,
        l2.routes[k],
    ) by {
        assert(route_fits(l, l.routes[k]));
    }
    assert forall|k: u64|
        #![trigger l2.intents.contains_key(k)]
        l2.intents.contains_key(k) implies intent_fits(
        l2,
        l2.intents[k].intent,
    ) by {
        assert(intent_fits(l, l.intents[k].intent));
    }
}

/// The same vaults remain, each with its id, asset, controller and kind.
pub open spec fn vaults_keep(before: Map<u64, Vault>, after: Map<u64, Vault>) -> bool {
    &&& after.dom() == before.dom()
    &&& forall|k: u64|
        #![trigger after.contains_key(k)]
        before.contains_key(k) ==> after[k].id == before[k].id && after[k].asset
            == before[k].asset && after[k].controller == before[k].controller && after[k].kind
            == before[k].kind
}

/// The same vaults remain, each with its id, asset, controller and kind, and
/// those whose bookkeeping balanced still balance.
pub open spec fn vaults_evolve(before: Map<u64, Vault>, after: Map<u64, Vault>) -> bool {
    &&& vaults_keep(before, after)
    &&& forall|k: u64|
        #![trigger after.contains_key(k)]
        before.contains_key(k) ==> (before[k].wf() ==> after[k].wf())
}

/// The accounts keep their ids.
pub open spec fn accounts_evolve(before: Map<u64, AccountView>, after: Map<u64, AccountView>) -> bool {
    &&& after.dom() == before.dom()
    &&& forall|k: u64| #![trigger after.contains_key(k)] before.contains_key(k) ==> after[k].id == before[k].id
}

/// The sessions keep their ids.
pub open spec fn sessions_evolve(before: Map<u64, SessionView>, after: Map<u64, SessionView>) -> bool {
    &&& after.dom() == before.dom()
    &&& forall|k: u64| #![trigger after.contains_key(k)] before.contains_key(k) ==> after[k].id == before[k].id
}

proof fn lemma_vault_step(before: Map<u64, Vault>, id: u64, v: Vault)
    requires
        before.contains_key(id),
        v.id == before[id].id,
        v.asset == before[id].asset,
        v.controller == before[id].controller,
        v.kind == before[id].kind,
        before[id].wf() ==> v.wf(),
    ensures
        vaults_evolve(before, before.insert(id, v)),
{
    assert(before.insert(id, v).dom() =~= before.dom());
}

pub(crate) proof fn lemma_vault_steps(vaults: Map<u64, Vault>, id: u64, amount: Amount)
    ensures
        vaults_evolve(vaults, reserve_at(vaults, id, amount).0),
        vaults_evolve(vaults, consume_at(vaults, id, amount).0),
        vaults_evolve(vaults, release_at(vaults, id, amount).0),
        vaults_evolve(vaults, pay_out_at(vaults, id, amount).0),
        inflow_at(vaults, id, amount).1 is Ok ==> vaults_evolve(
            vaults,
            inflow_at(vaults, id, amount).0,
        ),
        vaults_keep(vaults, inflow_at(vaults, id, amount).0),
{
    if vaults.contains_key(id) {
        let v = vaults[id];
        lemma_vault_step(vaults, id, reserve_spec(v, amount).0);
        lemma_vault_step(vaults, id, consume_spec(v, amount).0);
        lemma_vault_step(vaults, id, release_spec(v, amount).0);
        lemma_vault_step(vaults, id, pay_out_spec(v, amount).0);
        if inflow_spec(v, amount).1 is Ok {
            lemma_vault_step(vaults, id, inflow_spec(v, amount).0);
        }
        assert(inflow_at(vaults, id, amount).0.dom() =~= vaults.dom());
    }
}

pub(crate) proof fn lemma_vaults_evolve_trans(a: Map<u64, Vault>, b: Map<u64, Vault>, c: Map<u64, Vault>)
    requires
        vaults_evolve(a, b),
        vaults_evolve(b, c),
    ensures
        vaults_evolve(a, c),
{
    assert forall|k: u64|
        #![trigger c.contains_key(k)]
        a.contains_key(k) implies c[k].id == a[k].id
        && c[k].asset == a[k].asset && c[k].controller == a[k].controller && c[k].kind == a[k].kind
        && (a[k].wf() ==> c[k].wf()) by {
        assert(b.contains_key(k));
    }
}

proof fn lemma_credit_step(accounts: Map<u64, AccountView>, id: u64, asset: u64, amount: Amount)
    ensures
        accounts_evolve(accounts, credit_at(accounts, id, asset, amount).0),
{
    if accounts.contains_key(id) {
        assert(credit_at(accounts, id, asset, amount).0.dom() =~= accounts.dom());
    }
}

proof fn lemma_session_steps(sessions: Map<u64, SessionView>, id: u64, route: u64, amount: Amount)
    ensures
        sessions_evolve(sessions, allowance_at(sessions, id, route, amount).0),
        sessions.contains_key(id) ==> sessions_evolve(
            sessions,
            sessions.insert(id, add_counterflow_spec(sessions[id], route, amount).0),
        ),
{
    if sessions.contains_key(id) {
        assert(allowance_at(sessions, id, route, amount).0.dom() =~= sessions.dom());
        assert(sessions.insert(id, add_counterflow_spec(sessions[id], route, amount).0).dom()
            =~= sessions.dom());
    }
}

/// A change that adds nothing and keeps every id, asset and link keeps the
/// ledger linked, and well formed where every vault kept its balance.
proof fn lemma_wf_frame(l: LedgerView, l2: LedgerView)
    requires
        l.linked(),
        l2.assets == l.assets,
        l2.prices == l.prices,
        l2.routes == l.routes,
        l2.next_asset == l.next_asset,
        l2.next_account == l.next_account,
        l2.next_vault == l.next_vault,
        l2.next_route == l.next_route,
        l2.next_intent == l.next_intent,
        l2.next_session == l.next_session,
        vaults_keep(l.vaults, l2.vaults),
        accounts_evolve(l.accounts, l2.accounts),
        sessions_evolve(l.sessions, l2.sessions),
        l2.intents.dom() == l.intents.dom(),
        forall|k: u64|
            #![trigger l2.intents.contains_key(k)]
            l.intents.contains_key(k) ==> l2.intents[k].intent == l.intents[k].intent,
    ensures
        l2.linked(),
        l.wf() && vaults_evolve(l.vaults, l2.vaults) ==> l2.wf(),
{
    assert forall|k: u64|
        #![trigger l2.routes.contains_key(k)]
        l2.routes.contains_key(k) implies route_fits(
        l2,
        l2.routes[k],
    ) by {
        assert(route_fits(l, l.routes[k]));
        assert(l2.vaults.contains_key(l.routes[k].source_vault.0));
        assert(l2.vaults.contains_key(l.routes[k].target_vault.0));
        assert(l2.accounts.contains_key(l.routes[k].operator.0));
    }
    assert forall|k: u64|
        #![trigger l2.intents.contains_key(k)]
        l2.intents.contains_key(k) implies intent_fits(
        l2,
        l2.intents[k].intent,
    ) by {
        assert(l.intents.contains_key(k));
        assert(intent_fits(l, l.intents[k].intent));
        assert(l2.accounts.contains_key(l.intents[k].intent.owner.0));
        assert(l2.accounts.contains_key(l.intents[k].intent.recipient.0));
    }
    assert forall|k: u64|
        #![trigger l2.accounts.contains_key(k)]
        l2.accounts.contains_key(k) implies l2.accounts[k].id.0
        == k && k < l2.next_account by {
        assert(l.accounts.contains_key(k));
    }
    assert forall|k: u64|
        #![trigger l2.vaults.contains_key(k)]
        l2.vaults.contains_key(k) implies l2.vaults[k].id.0
        == k && k < l2.next_vault by {
        assert(l.vaults.contains_key(k));
    }
    if l.wf() && vaults_evolve(l.vaults, l2.vaults) {
        assert forall|k: u64|
            #![trigger l2.vaults.contains_key(k)]
            l2.vaults.contains_key(k) implies l2.vaults[k].wf() by {
            assert(l.vaults.contains_key(k));
        }
    }
    assert forall|k: u64|
        #![trigger l2.sessions.contains_key(k)]
        l2.sessions.contains_key(k) implies l2.sessions[k].id.0
        == k && k < l2.next_session by {
        assert(l.sessions.contains_key(k));
    }
    assert forall|k: u64|
        #![trigger l2.intents.contains_key(k)]
        l2.intents.contains_key(k) implies l2.intents[k].intent.id.0
        == k && k < l2.next_intent by {
        assert(l.intents.contains_key(k));
    }
}

proof fn lemma_accounts_evolve_trans(
    a: Map<u64, AccountView>,
    b: Map<u64, AccountView>,
    c: Map<u64, AccountView>,
)
    requires
        accounts_evolve(a, b),
        accounts_evolve(b, c),
    ensures
        accounts_evolve(a, c),
{
    assert forall|k: u64|
        #![trigger c.contains_key(k)]
        a.contains_key(k) implies c[k].id == a[k].id by {
        assert(b.contains_key(k));
    }
}

pub(crate) proof fn lemma_settle_record_wf(
    l0: LedgerView,
    l: LedgerView,
    session: SessionId,
    intent: IntentId,
    t: TransferIntent,
    gross: Amount,
    fee: Amount,
    net: Amount,
    credit: Amount,
)
    requires
        l0.linked(),
        l.assets == l0.assets,
        l.prices == l0.prices,
        l.routes == l0.routes,
        l.intents == l0.intents,
        l.next_asset == l0.next_asset,
        l.next_account == l0.next_account,
        l.next_vault == l0.next_vault,
        l.next_route == l0.next_route,
        l.next_intent == l0.next_intent,
        l.next_session == l0.next_session,
        vaults_keep(l0.vaults, l.vaults),
        accounts_evolve(l0.accounts, l.accounts),
        sessions_evolve(l0.sessions, l.sessions),
        l.intents.contains_key(intent.0),
        l.sessions.contains_key(session.0),
    ensures
        settle_record_spec(l, session, intent, t, gross, fee, net, credit).0.linked(),
        l0.wf() && vaults_evolve(l0.vaults, l.vaults) ==> settle_record_spec(
            l,
            session,
            intent,
            t,
            gross,
            fee,
            net,
            credit,
        ).0.wf(),
{
    let l2 = settle_record_spec(l, session, intent, t, gross, fee, net, credit).0;
    assert(l2.intents.dom() =~= l0.intents.dom());
    assert(l2.sessions.dom() =~= l.sessions.dom());
    assert(sessions_evolve(l0.sessions, l2.sessions)) by {
        assert forall|k: u64|
            #![trigger l2.sessions.contains_key(k)]
            l0.sessions.contains_key(k) implies l2.sessions[k].id
            == l0.sessions[k].id by {
            assert(l.sessions.contains_key(k));
        }
    }
    lemma_wf_frame(l0, l2);
}

pub(crate) proof fn lemma_settle_payout_wf(
    l: LedgerView,
    session: SessionId,
    intent: IntentId,
    t: TransferIntent,
    route: RouteConfig,
    gross: Amount,
    fee: Amount,
    net: Amount,
    credit: Amount,
)
    requires
        l.linked(),
        l.intents.contains_key(intent.0),
        l.sessions.contains_key(session.0),
    ensures
        settle_payout_spec(l, session, intent, t, route, gross, fee, net, credit).0.linked(),
        l.wf() ==> settle_payout_spec(l, session, intent, t, route, gross, fee, net, credit).0.wf(),
{
    let (risk, authorized) = authorize_spec(l.risk, route, t.owner.0, gross, credit);
    let l2 = LedgerView { risk, ..l };
    lemma_wf_frame(l, l2);
    if authorized is Ok {
        let (v1, consumed) = consume_at(l2.vaults, t.source_vault.0, t.amount_in);
        lemma_vault_steps(l2.vaults, t.source_vault.0, t.amount_in);
        let l3 = LedgerView { vaults: v1, ..l2 };
        lemma_wf_frame(l, l3);
        if consumed is Ok {
            let (v2, paid) = pay_out_at(v1, t.target_vault.0, gross);
            lemma_vault_steps(v1, t.target_vault.0, gross);
            lemma_vaults_evolve_trans(l.vaults, v1, v2);
            let l4 = LedgerView { vaults: v2, ..l3 };
            lemma_wf_frame(l, l4);
            if paid is Ok {
                let (a1, net_credited) = credit_at(l4.accounts, t.recipient.0, t.target_asset.0, net);
                lemma_credit_step(l4.accounts, t.recipient.0, t.target_asset.0, net);
                let l5 = LedgerView { accounts: a1, ..l4 };
                lemma_wf_frame(l, l5);
                if net_credited is Ok {
                    let (a2, fee_credited) = credit_at(a1, route.operator.0, t.target_asset.0, fee);
                    lemma_credit_step(a1, route.operator.0, t.target_asset.0, fee);
                    lemma_accounts_evolve_trans(l.accounts, a1, a2);
                    let l6 = LedgerView { accounts: a2, ..l5 };
                    lemma_wf_frame(l, l6);
                    if fee_credited is Ok {
                        lemma_settle_record_wf(l, l6, session, intent, t, gross, fee, net, credit);
                    }
                }
            }
        }
    }
}

pub(crate) proof fn lemma_settle_wf(l: LedgerView, session: SessionId, intent: IntentId)
    requires
        l.linked(),
    ensures
        settle_intent_spec(l, session, intent).0.linked(),
        l.wf() ==> settle_intent_spec(l, session, intent).0.wf(),
{
    match settle_quote(l, intent) {
        Err(_) => {},
        Ok((t, route, gross, fee, net)) => {
            let (sessions, allowed) = allowance_at(l.sessions, session.0, route.id.0, gross);
            lemma_session_steps(l.sessions, session.0, route.id.0, gross);
            let l1 = LedgerView { sessions, ..l };
            lemma_wf_frame(l, l1);
            if let Ok(credit) = allowed {
                lemma_settle_payout_wf(l1, session, intent, t, route, gross, fee, net, credit);
            }
        },
    }
}

pub(crate) proof fn lemma_register_asset_wf(l: LedgerView, symbol: String, decimals: u8, risk_weight_bps: u16)
    requires
        l.linked(),
        l.next_asset < u64::MAX,
    ensures
        register_asset_spec(l, symbol, decimals, risk_weight_bps).0.linked(),
        l.wf() ==> register_asset_spec(l, symbol, decimals, risk_weight_bps).0.wf(),
{
    let l2 = register_asset_spec(l, symbol, decimals, risk_weight_bps).0;
    lemma_fits_grow(l, l2);
}

pub(crate) proof fn lemma_set_price_wf(l: LedgerView, asset: AssetId, price_e8: u128, confidence_bps: u16)
    requires
        l.linked(),
    ensures
        set_price_spec(l, asset, price_e8, confidence_bps).0.linked(),
        l.wf() ==> set_price_spec(l, asset, price_e8, confidence_bps).0.wf(),
{
    let l2 = set_price_spec(l, asset, price_e8, confidence_bps).0;
    lemma_fits_grow(l, l2);
}

pub(crate) proof fn lemma_create_vault_wf(l: LedgerView, asset: AssetId, controller: AccountId, kind: VaultKind)
    requires
        l.linked(),
        create_vault_spec(l, asset, controller, kind).1 is Ok ==> l.next_vault < u64::MAX,
    ensures
        create_vault_spec(l, asset, controller, kind).0.linked(),
        l.wf() ==> create_vault_spec(l, asset, controller, kind).0.wf(),
{
    let l2 = create_vault_spec(l, asset, controller, kind).0;
    lemma_fits_grow(l, l2);
}

pub(crate) proof fn lemma_deposit_vault_wf(l: LedgerView, vault: VaultId, amount: Amount)
    requires
        l.linked(),
    ensures
        deposit_vault_spec(l, vault, amount).0.linked(),
        l.wf() && deposit_vault_spec(l, vault, amount).1 is Ok ==> deposit_vault_spec(
            l,
            vault,
            amount,
        ).0.wf(),
{
    lemma_vault_steps(l.vaults, vault.0, amount);
    lemma_wf_frame(l, deposit_vault_spec(l, vault, amount).0);
}

pub(crate) proof fn lemma_credit_account_wf(l: LedgerView, account: AccountId, asset: AssetId, amount: Amount)
    requires
        l.linked(),
    ensures
        credit_account_spec(l, account, asset, amount).0.linked(),
        l.wf() ==> credit_account_spec(l, account, asset, amount).0.wf(),
{
    lemma_credit_step(l.accounts, account.0, asset.0, amount);
    lemma_wf_frame(l, credit_account_spec(l, account, asset, amount).0);
}

pub(crate) proof fn lemma_add_route_wf(l: LedgerView, route: RouteConfig)
    requires
        l.linked(),
        add_route_spec(l, route).1 is Ok ==> l.next_route < u64::MAX,
    ensures
        add_route_spec(l, route).0.linked(),
        l.wf() ==> add_route_spec(l, route).0.wf(),
{
    let l2 = add_route_spec(l, route).0;
    if add_route_spec(l, route).1 is Ok {
        let id = RouteId(l.next_route);
        assert forall|k: u64|
            #![trigger l2.routes.contains_key(k)]
            l2.routes.contains_key(k) implies l2.routes[k].id.0
            == k && k < l2.next_route && route_fits(l2, l2.routes[k]) by {
            if k != id.0 {
                assert(route_fits(l, l.routes[k]));
            }
        }
        assert forall|k: u64|
            #![trigger l2.intents.contains_key(k)]
            l2.intents.contains_key(k) implies intent_fits(
            l2,
            l2.intents[k].intent,
        ) by {
            assert(intent_fits(l, l.intents[k].intent));
            assert(l.routes.contains_key(l.intents[k].intent.route.0));
        }
    }
}

pub(crate) proof fn lemma_open_session_wf(l: LedgerView)
    requires
        l.linked(),
        l.next_session < u64::MAX,
    ensures
        open_session_spec(l).0.linked(),
        l.wf() ==> open_session_spec(l).0.wf(),
{
    let l2 = open_session_spec(l).0;
    lemma_fits_grow(l, l2);
}

pub(crate) proof fn lemma_record_counterflow_wf(
    l: LedgerView,
    session: SessionId,
    route: RouteId,
    amount: Amount,
)
    requires
        l.linked(),
    ensures
        record_counterflow_spec(l, session, route, amount).0.linked(),
        l.wf() ==> record_counterflow_spec(l, session, route, amount).0.wf(),
{
    lemma_session_steps(l.sessions, session.0, route.0, amount);
    lemma_wf_frame(l, record_counterflow_spec(l, session, route, amount).0);
}

pub(crate) proof fn lemma_cancel_intent_wf(l: LedgerView, intent: IntentId)
    requires
        l.linked(),
    ensures
        cancel_intent_spec(l, intent).0.linked(),
        l.wf() ==> cancel_intent_spec(l, intent).0.wf(),
{
    let l2 = cancel_intent_spec(l, intent).0;
    if l.intents.contains_key(intent.0) {
        let queued = l.intents[intent.0];
        lemma_vault_steps(l.vaults, queued.intent.source_vault.0, queued.intent.amount_in);
        assert(l2.intents.dom() =~= l.intents.dom());
    }
    lemma_wf_frame(l, l2);
}

pub(crate) proof fn lemma_submit_intent_wf(
    l: LedgerView,
    owner: AccountId,
    recipient: AccountId,
    route_id: RouteId,
    amount_in: Amount,
    min_amount_out: Amount,
    deadline_slot: u64,
    nonce: u64,
)
    requires
        l.linked(),
        submit_intent_spec(
            l,
            owner,
            recipient,
            route_id,
            amount_in,
            min_amount_out,
            deadline_slot,
            nonce,
        ).1 is Ok ==> l.next_intent < u64::MAX,
    ensures
        submit_intent_spec(
            l,
            owner,
            recipient,
            route_id,
            amount_in,
            min_amount_out,
            deadline_slot,
            nonce,
        ).0.linked(),
        l.wf() ==> submit_intent_spec(
            l,
            owner,
            recipient,
            route_id,
            amount_in,
            min_amount_out,
            deadline_slot,
            nonce,
        ).0.wf(),
{
    let l2 = submit_intent_spec(
        l,
        owner,
        recipient,
        route_id,
        amount_in,
        min_amount_out,
        deadline_slot,
        nonce,
    ).0;
    match intent_quote(l, owner, recipient, route_id, amount_in, min_amount_out) {
        Err(_) => {},
        Ok((route, gross, fee)) => {
            lemma_vault_steps(l.vaults, route.source_vault.0, amount_in);
            let (vaults, locked) = reserve_at(l.vaults, route.source_vault.0, amount_in);
            let l1 = LedgerView { vaults, ..l };
            lemma_wf_frame(l, l1);
            if locked is Ok {
                let id = l.next_intent;
                assert(l.routes.contains_key(route_id.0) && l.routes[route_id.0] == route);
                assert forall|k: u64|
                    #![trigger l2.intents.contains_key(k)]
                    l2.intents.contains_key(k) implies l2.intents[k].intent.id.0
                    == k && k < l2.next_intent && intent_fits(l2, l2.intents[k].intent) by {
                    if k != id {
                        assert(l1.intents.contains_key(k));
                    }
                }
                assert(l2.linked());
            }
        },
    }
}

pub(crate) proof fn lemma_create_account_wf(l: LedgerView, label: String)
    requires
        l.linked(),
        l.next_account < u64::MAX,
    ensures
        create_account_spec(l, label).0.linked(),
        l.wf() ==> create_account_spec(l, label).0.wf(),
{
    let l2 = create_account_spec(l, label).0;
    lemma_fits_grow(l, l2);
}


} // verus!
