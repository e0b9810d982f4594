//! Properties of the ledger that span several operations.

use vstd::prelude::*;

use crate::amount::{amount_at, bps_floor_result, sub_result, Amount};
use crate::error::OrbitError;
use crate::events::Event;
use crate::ids::{AccountId, IntentId, RouteId, SessionId, TxId, VaultId};
use crate::invariants::{lemma_vault_steps, lemma_vaults_evolve_trans, vaults_evolve};
use crate::model::{
    add_route_spec, allowance_at, cancel_intent_spec, consume_at, credit_at, deposit_vault_spec, fee_split,
    intent_fits, intent_quote, pay_out_at, record_counterflow_spec, route_fits,
    settle_intent_spec, settle_quote, settle_record_spec, submit_intent_spec, LedgerView,
};
use crate::orders::{IntentStatus, QueuedIntent};
use crate::risk::authorize_spec;
use crate::routes::{total_fee_result, RouteConfig};

verus! {

/// A successful settlement was of a pending intent whose route is enabled; it
/// marks the intent settled, records it in the session, pays the recipient no
/// less than the minimum the intent asked for, splits the gross payout exactly
/// into that net amount and the fee, credits the net to the recipient and the
/// fee to the route operator (both to one account when they are the same),
/// appends exactly one entry to the log and advances the slot.
pub proof fn successful_settlement_honours_the_intent(
    l: LedgerView,
    session: SessionId,
    intent: IntentId,
)
    requires
        settle_intent_spec(l, session, intent).1 is Ok,
    ensures
        ({
            let after = settle_intent_spec(l, session, intent).0;
            let q = l.intents[intent.0];
            let t = q.intent;
            let route = l.routes[t.route.0];
            &&& l.intents.contains_key(intent.0)
            &&& after.intents.contains_key(intent.0)
            &&& q.status == IntentStatus::Pending
            &&& l.routes.contains_key(t.route.0)
            &&& route.enabled
            &&& after.intents[intent.0] == (QueuedIntent { status: IntentStatus::Settled, ..q })
            &&& after.events.len() == l.events.len() + 1
            &&& after.events.subrange(0, l.events.len() as int) == l.events
            &&& after.events.last() matches Event::IntentSettled {
                intent: logged,
                recipient,
                gross_out,
                net_out,
                fee,
                ..
            } && logged == intent && recipient == t.recipient && net_out.0 >= t.min_amount_out.0
                && net_out.0 + fee.0 == gross_out.0
            &&& after.slot == (l.slot + 1) as u64
            &&& after.sessions[session.0].included_intents == l.sessions[
                session.0
            ].included_intents.push(intent)
            &&& l.accounts.contains_key(t.recipient.0)
            &&& l.accounts.contains_key(route.operator.0)
            &&& after.events.last() matches Event::IntentSettled { net_out, fee, .. } && (
                if t.recipient == route.operator {
                    amount_at(after.accounts[t.recipient.0].balances, t.target_asset.0).0
                        == amount_at(l.accounts[t.recipient.0].balances, t.target_asset.0).0
                        + net_out.0 + fee.0
                } else {
                    &&& amount_at(after.accounts[t.recipient.0].balances, t.target_asset.0).0
                        == amount_at(l.accounts[t.recipient.0].balances, t.target_asset.0).0
                        + net_out.0
                    &&& amount_at(after.accounts[route.operator.0].balances, t.target_asset.0).0
                        == amount_at(l.accounts[route.operator.0].balances, t.target_asset.0).0
                        + fee.0
                })
        }),
{
    let (t, route, gross, fee, net) = settle_quote(l, intent)->Ok_0;
    assert(fee_split(gross, route) == Ok::<(Amount, Amount), OrbitError>((fee, net)));
    let (sessions, allowed) = allowance_at(l.sessions, session.0, route.id.0, gross);
    let l1 = LedgerView { sessions, ..l };
    let credit = allowed->Ok_0;
    let (risk, authorized) = authorize_spec(l1.risk, route, t.owner.0, gross, credit);
    let l2 = LedgerView { risk, ..l1 };
    let (v1, consumed) = consume_at(l2.vaults, t.source_vault.0, t.amount_in);
    let l3 = LedgerView { vaults: v1, ..l2 };
    let (v2, paid) = pay_out_at(v1, t.target_vault.0, gross);
    let l4 = LedgerView { vaults: v2, ..l3 };
    let (a1, net_credited) = credit_at(l4.accounts, t.recipient.0, t.target_asset.0, net);
    let l5 = LedgerView { accounts: a1, ..l4 };
    let (a2, fee_credited) = credit_at(a1, route.operator.0, t.target_asset.0, fee);
    let l6 = LedgerView { accounts: a2, ..l5 };
    assert(settle_intent_spec(l, session, intent) == settle_record_spec(
        l6,
        session,
        intent,
        t,
        gross,
        fee,
        net,
        credit,
    ));
    let after = settle_intent_spec(l, session, intent).0;
    assert(after.events.subrange(0, l.events.len() as int) =~= l.events);
}

/// A settled intent stays settled: settling it again, in any session, or
/// cancelling it is refused with `IntentNotPending` and changes nothing.
pub proof fn settled_intent_is_final(
    l: LedgerView,
    session: SessionId,
    other: SessionId,
    intent: IntentId,
)
    requires
        settle_intent_spec(l, session, intent).1 is Ok,
    ensures
        ({
            let after = settle_intent_spec(l, session, intent).0;
            &&& settle_intent_spec(after, other, intent) == (
                after,
                Err::<TxId, OrbitError>(OrbitError::IntentNotPending),
            )
            &&& cancel_intent_spec(after, intent) == (
                after,
                Err::<(), OrbitError>(OrbitError::IntentNotPending),
            )
        }),
{
    successful_settlement_honours_the_intent(l, session, intent);
}

/// A cancelled intent stays cancelled: settling it, in any session, or
/// cancelling it again is refused with `IntentNotPending` and changes nothing.
pub proof fn cancelled_intent_is_final(l: LedgerView, session: SessionId, intent: IntentId)
    requires
        cancel_intent_spec(l, intent).1 is Ok,
    ensures
        ({
            let after = cancel_intent_spec(l, intent).0;
            &&& after.intents[intent.0].status == IntentStatus::Cancelled
            &&& settle_intent_spec(after, session, intent) == (
                after,
                Err::<TxId, OrbitError>(OrbitError::IntentNotPending),
            )
            &&& cancel_intent_spec(after, intent) == (
                after,
                Err::<(), OrbitError>(OrbitError::IntentNotPending),
            )
        }),
{
}

/// A disabled route moves nothing: counterflow cannot be recorded on it, no
/// intent can be queued on it, and no pending intent on it can be settled.
pub proof fn disabled_route_moves_nothing(
    l: LedgerView,
    route: RouteId,
    session: SessionId,
    amount: Amount,
    owner: AccountId,
    recipient: AccountId,
    amount_in: Amount,
    min_amount_out: Amount,
    deadline_slot: u64,
    nonce: u64,
    intent: IntentId,
)
    requires
        l.routes.contains_key(route.0),
        !l.routes[route.0].enabled,
    ensures
        record_counterflow_spec(l, session, route, amount) == (
            l,
            Err::<(), OrbitError>(OrbitError::RouteDisabled),
        ),
        l.accounts.contains_key(owner.0) && l.accounts.contains_key(recipient.0)
            ==> submit_intent_spec(
            l,
            owner,
            recipient,
            route,
            amount_in,
            min_amount_out,
            deadline_slot,
            nonce,
        ) == (l, Err::<IntentId, OrbitError>(OrbitError::RouteDisabled)),
        l.intents.contains_key(intent.0) && l.intents[intent.0].status == IntentStatus::Pending
            && l.intents[intent.0].intent.route == route ==> settle_intent_spec(
            l,
            session,
            intent,
        ) == (l, Err::<TxId, OrbitError>(OrbitError::RouteDisabled)),
{
}

/// Risk limits are checked before funds move: a settlement refused by a risk
/// limit leaves every vault, account and intent as it was.
pub proof fn risk_refusal_moves_no_funds(l: LedgerView, session: SessionId, intent: IntentId)
    requires
        settle_intent_spec(l, session, intent).1 == Err::<TxId, OrbitError>(
            OrbitError::RouteCapacityExceeded,
        ) || settle_intent_spec(l, session, intent).1 == Err::<TxId, OrbitError>(
            OrbitError::SettlementLimitExceeded,
        ),
    ensures
        settle_intent_spec(l, session, intent).0.vaults == l.vaults,
        settle_intent_spec(l, session, intent).0.accounts == l.accounts,
        settle_intent_spec(l, session, intent).0.intents == l.intents,
{
    let (t, route, gross, fee, net) = settle_quote(l, intent)->Ok_0;
    let (sessions, allowed) = allowance_at(l.sessions, session.0, route.id.0, gross);
    let l1 = LedgerView { sessions, ..l };
    let credit = allowed->Ok_0;
    let (risk, authorized) = authorize_spec(l1.risk, route, t.owner.0, gross, credit);
    if authorized is Ok {
        let (v1, consumed) = consume_at(l1.vaults, t.source_vault.0, t.amount_in);
        if consumed is Ok {
            let (v2, paid) = pay_out_at(v1, t.target_vault.0, gross);
            if paid is Ok {
                let (a1, net_credited) = credit_at(l1.accounts, t.recipient.0, t.target_asset.0, net);
                if net_credited is Ok {
                    let (a2, fee_credited) = credit_at(a1, route.operator.0, t.target_asset.0, fee);
                }
            }
        }
    }
}

/// With a total fee of at most 100%, the fee split of any gross payout is
/// refused only when `gross * bps` overflows, and otherwise the fee and the
/// net payout add up to the gross payout exactly.
pub proof fn fee_split_is_exact(gross: Amount, route: RouteConfig)
    requires
        route.fee_bps + route.relayer_bps <= 10_000,
    ensures
        fee_split(gross, route) is Ok <==> gross.0 * (route.fee_bps + route.relayer_bps)
            <= u128::MAX,
        fee_split(gross, route) matches Ok((fee, net)) ==> fee.0 + net.0 == gross.0 && fee.0
            <= gross.0,
{
    let bps = (route.fee_bps + route.relayer_bps) as u16;
    assert(total_fee_result(route) == Ok::<u16, OrbitError>(bps));
    if gross.0 * bps <= u128::MAX {
        let fee = (gross.0 * bps) / 10_000int;
        assert(fee <= gross.0) by (nonlinear_arith)
            requires
                fee == (gross.0 * bps) / 10_000int,
                0 <= bps <= 10_000,
                0 <= gross.0,
        ;
        assert(bps_floor_result(gross, bps) == Ok::<Amount, OrbitError>(Amount(fee as u128)));
        assert(sub_result(gross, Amount(fee as u128)) is Ok);
    }
}

/// Identifiers are never reused: in a linked ledger, the next id of each
/// kind, which is the one the creating operation of that kind hands out,
/// belongs to nothing yet.
pub proof fn new_ids_are_fresh(l: LedgerView)
    requires
        l.linked(),
    ensures
        !l.accounts.contains_key(l.next_account),
        !l.assets.contains_key(l.next_asset),
        !l.vaults.contains_key(l.next_vault),
        !l.routes.contains_key(l.next_route),
        !l.intents.contains_key(l.next_intent),
        !l.sessions.contains_key(l.next_session),
{
}

/// A vault only settles the asset it holds: in a linked ledger, a
/// successful settlement takes its input from a vault that holds the
/// intent's source asset, and pays out, and credits the recipient and the
/// operator, in the asset that the target vault holds.
pub proof fn settlement_stays_within_vault_assets(l: LedgerView, session: SessionId, intent: IntentId)
    requires
        l.linked(),
        settle_intent_spec(l, session, intent).1 is Ok,
    ensures
        ({
            let t = l.intents[intent.0].intent;
            &&& l.vaults.contains_key(t.source_vault.0)
            &&& l.vaults[t.source_vault.0].asset == t.source_asset
            &&& l.vaults.contains_key(t.target_vault.0)
            &&& l.vaults[t.target_vault.0].asset == t.target_asset
            &&& settle_intent_spec(l, session, intent).0.events.last() matches Event::IntentSettled {
                target_asset,
                ..
            } && target_asset == l.vaults[t.target_vault.0].asset
        }),
{
    successful_settlement_honours_the_intent(l, session, intent);
    let t = l.intents[intent.0].intent;
    assert(intent_fits(l, t));
    assert(route_fits(l, l.routes[t.route.0]));
}

/// A vault keeps its asset and controller: settling, queueing or cancelling an
/// intent and depositing leave the same vaults in place, each with its id,
/// asset, controller and kind, whatever the outcome, and a vault whose
/// bookkeeping balanced still balances (for a deposit, once it is accepted).
pub proof fn vaults_keep_their_asset_and_controller(
    l: LedgerView,
    session: SessionId,
    intent: IntentId,
    owner: AccountId,
    recipient: AccountId,
    route: RouteId,
    amount_in: Amount,
    min_amount_out: Amount,
    deadline_slot: u64,
    nonce: u64,
    vault: VaultId,
    amount: Amount,
)
    ensures
        vaults_evolve(l.vaults, settle_intent_spec(l, session, intent).0.vaults),
        vaults_evolve(
            l.vaults,
            submit_intent_spec(
                l,
                owner,
                recipient,
                route,
                amount_in,
                min_amount_out,
                deadline_slot,
                nonce,
            ).0.vaults,
        ),
        vaults_evolve(l.vaults, cancel_intent_spec(l, intent).0.vaults),
        deposit_vault_spec(l, vault, amount).1 is Ok ==> vaults_evolve(
            l.vaults,
            deposit_vault_spec(l, vault, amount).0.vaults,
        ),
{
    lemma_vault_steps(l.vaults, vault.0, amount);
    if let Ok((r, gross, fee)) = intent_quote(l, owner, recipient, route, amount_in, min_amount_out) {
        lemma_vault_steps(l.vaults, r.source_vault.0, amount_in);
    }
    if l.intents.contains_key(intent.0) {
        let t = l.intents[intent.0].intent;
        lemma_vault_steps(l.vaults, t.source_vault.0, t.amount_in);
    }
    if let Ok((t, r, gross, fee, net)) = settle_quote(l, intent) {
        let v1 = consume_at(l.vaults, t.source_vault.0, t.amount_in).0;
        lemma_vault_steps(l.vaults, t.source_vault.0, t.amount_in);
        lemma_vault_steps(v1, t.target_vault.0, gross);
        lemma_vaults_evolve_trans(l.vaults, v1, pay_out_at(v1, t.target_vault.0, gross).0);
    }
}

/// Every route joins existing vaults that hold its own assets.
pub open spec fn routes_on_their_assets(l: LedgerView) -> bool {
    forall|k: u64|
        #![trigger l.routes.contains_key(k)]
        l.routes.contains_key(k) ==> {
            let r = l.routes[k];
            &&& l.vaults.contains_key(r.source_vault.0)
            &&& l.vaults.contains_key(r.target_vault.0)
            &&& l.vaults[r.source_vault.0].asset == r.source_asset
            &&& l.vaults[r.target_vault.0].asset == r.target_asset
        }
}

/// Adding a route, accepted or refused, keeps every route on vaults of its own
/// assets.
pub proof fn add_route_keeps_routes_on_their_assets(l: LedgerView, route: RouteConfig)
    requires
        routes_on_their_assets(l),
    ensures
        routes_on_their_assets(add_route_spec(l, route).0),
{
    let l2 = add_route_spec(l, route).0;
    if add_route_spec(l, route).1 is Ok {
        assert forall|k: u64| #![trigger l2.routes.contains_key(k)] l2.routes.contains_key(k) implies {
            let r = l2.routes[k];
            &&& l2.vaults.contains_key(r.source_vault.0)
            &&& l2.vaults.contains_key(r.target_vault.0)
            &&& l2.vaults[r.source_vault.0].asset == r.source_asset
            &&& l2.vaults[r.target_vault.0].asset == r.target_asset
        } by {
            if k != l.next_route {
                assert(l.routes.contains_key(k));
            }
        }
    }
}

/// Cancelling an intent right after queueing it succeeds and gives back every
/// vault as it was before the intent was queued; the intent can then no
/// longer be settled.
pub proof fn cancelling_a_new_intent_restores_its_vault(
    l: LedgerView,
    owner: AccountId,
    recipient: AccountId,
    route: RouteId,
    amount_in: Amount,
    min_amount_out: Amount,
    deadline_slot: u64,
    nonce: u64,
    session: SessionId,
)
    requires
        submit_intent_spec(
            l,
            owner,
            recipient,
            route,
            amount_in,
            min_amount_out,
            deadline_slot,
            nonce,
        ).1 is Ok,
    ensures
        ({
            let (queued, r) = submit_intent_spec(
                l,
                owner,
                recipient,
                route,
                amount_in,
                min_amount_out,
                deadline_slot,
                nonce,
            );
            let id = r->Ok_0;
            let (cancelled, c) = cancel_intent_spec(queued, id);
            &&& c is Ok
            &&& cancelled.vaults == l.vaults
            &&& settle_intent_spec(cancelled, session, id) == (
                cancelled,
                Err::<TxId, OrbitError>(OrbitError::IntentNotPending),
            )
        }),
{
    let (queued, r) = submit_intent_spec(
        l,
        owner,
        recipient,
        route,
        amount_in,
        min_amount_out,
        deadline_slot,
        nonce,
    );
    let (rc, gross, fee) = intent_quote(l, owner, recipient, route, amount_in, min_amount_out)->Ok_0;
    let sv = rc.source_vault.0;
    let id = r->Ok_0;
    let (cancelled, c) = cancel_intent_spec(queued, id);
    assert(queued.intents[id.0].intent.source_vault.0 == sv);
    assert(cancelled.vaults =~= l.vaults);
    cancelled_intent_is_final(queued, session, id);
}

} // verus!
