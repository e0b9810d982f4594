//! What a vault keeps locked is exactly the input of the pending intents that
//! draw on it.

use vstd::prelude::*;

use crate::amount::Amount;
use crate::ids::{AccountId, AssetId, IntentId, RouteId, SessionId, VaultId};
use crate::invariants::lemma_vault_steps;
use crate::model::{
    cancel_intent_spec, consume_at, create_vault_spec, deposit_vault_spec, intent_fits,
    intent_quote, pay_out_at, route_fits, settle_intent_spec, settle_quote, submit_intent_spec,
    LedgerView,
};
use crate::orders::{IntentStatus, QueuedIntent};
use crate::report::{lemma_map_sum_remove, map_sum};
use crate::vault::VaultKind;

verus! {

/// The input an intent keeps locked in the vault `vault`: all of it while it
/// is pending and draws on that vault, nothing otherwise.
pub open spec fn pending_input(vault: u64) -> spec_fn(QueuedIntent) -> int {
    |q: QueuedIntent|
        if q.status == IntentStatus::Pending && q.intent.source_vault.0 == vault {
            q.intent.amount_in.0 as int
        } else {
            0
        }
}

/// Every vault has locked exactly the inputs of the pending intents that draw
/// on it.
pub open spec fn locks_balanced(l: LedgerView) -> bool {
    &&& l.intents.dom().finite()
    &&& forall|v: u64|
        #![trigger l.vaults.contains_key(v)]
        l.vaults.contains_key(v) ==> l.vaults[v].locked.0 == map_sum(l.intents, pending_input(v))
}

/// No pending intent draws on the vault id `vault`.
pub open spec fn no_pending_draws_on(l: LedgerView, vault: u64) -> bool {
    forall|k: u64| #[trigger] l.intents.contains_key(k) ==> pending_input(vault)(l.intents[k]) == 0
}

proof fn lemma_map_sum_insert<V>(m: Map<u64, V>, k: u64, x: V, f: spec_fn(V) -> int)
    requires
        m.dom().finite(),
    ensures
        m.contains_key(k) ==> map_sum(m.insert(k, x), f) == map_sum(m, f) - f(m[k]) + f(x),
        !m.contains_key(k) ==> map_sum(m.insert(k, x), f) == map_sum(m, f) + f(x),
{
    lemma_map_sum_remove(m.insert(k, x), f, k);
    if m.contains_key(k) {
        lemma_map_sum_remove(m, f, k);
        assert(m.insert(k, x).remove(k) =~= m.remove(k));
    } else {
        assert(m.insert(k, x).remove(k) =~= m);
    }
}

proof fn lemma_map_sum_nonneg<V>(m: Map<u64, V>, f: spec_fn(V) -> int)
    requires
        m.dom().finite(),
        forall|k: u64| #[trigger] m.contains_key(k) ==> f(m[k]) >= 0,
    ensures
        map_sum(m, f) >= 0,
    decreases m.dom().len(),
{
    if m.dom().len() > 0 {
        let k = m.dom().choose();
        assert(m.contains_key(k));
        assert forall|j: u64| #[trigger] m.remove(k).contains_key(j) implies f(m.remove(k)[j]) >= 0 by {
            assert(m.contains_key(j));
        }
        lemma_map_sum_nonneg(m.remove(k), f);
    }
}

proof fn lemma_map_sum_zero<V>(m: Map<u64, V>, f: spec_fn(V) -> int)
    requires
        m.dom().finite(),
        forall|k: u64| #[trigger] m.contains_key(k) ==> f(m[k]) == 0,
    ensures
        map_sum(m, f) == 0,
    decreases m.dom().len(),
{
    if m.dom().len() > 0 {
        let k = m.dom().choose();
        assert(m.contains_key(k));
        assert forall|j: u64| #[trigger] m.remove(k).contains_key(j) implies f(m.remove(k)[j]) == 0 by {
            assert(m.contains_key(j));
        }
        lemma_map_sum_zero(m.remove(k), f);
    }
}

/// A pending intent's input is locked in its source vault: in a balanced
/// ledger, that vault has locked at least the intent's input.
pub proof fn pending_input_is_locked(l: LedgerView, intent: IntentId)
    requires
        locks_balanced(l),
        l.intents.contains_key(intent.0),
        l.intents[intent.0].status == IntentStatus::Pending,
        l.vaults.contains_key(l.intents[intent.0].intent.source_vault.0),
    ensures
        l.vaults[l.intents[intent.0].intent.source_vault.0].locked.0
            >= l.intents[intent.0].intent.amount_in.0,
{
    let v = l.intents[intent.0].intent.source_vault.0;
    let f = pending_input(v);
    lemma_map_sum_remove(l.intents, f, intent.0);
    assert forall|k: u64| #[trigger] l.intents.remove(intent.0).contains_key(k) implies f(
        l.intents.remove(intent.0)[k],
    ) >= 0 by {}
    lemma_map_sum_nonneg(l.intents.remove(intent.0), f);
}

/// A change that keeps the intents and what each vault has locked keeps the
/// locks balanced.
pub(crate) proof fn lemma_locks_frame(l: LedgerView, l2: LedgerView)
    requires
        locks_balanced(l),
        l2.intents == l.intents,
        l2.vaults.dom() == l.vaults.dom(),
        forall|v: u64| #[trigger] l2.vaults.contains_key(v) ==> l2.vaults[v].locked == l.vaults[v].locked,
    ensures
        locks_balanced(l2),
{
    assert forall|v: u64|
        #![trigger l2.vaults.contains_key(v)]
        l2.vaults.contains_key(v) implies l2.vaults[v].locked.0
        == map_sum(l2.intents, pending_input(v)) by {
        assert(l.vaults.contains_key(v));
    }
}

/// Replacing one intent by another, while the vaults' locks change by the
/// difference of what the two keep locked, keeps the locks balanced.
proof fn lemma_locks_swap(l: LedgerView, l2: LedgerView, k: u64, x: QueuedIntent)
    requires
        locks_balanced(l),
        l2.intents == l.intents.insert(k, x),
        l2.vaults.dom() == l.vaults.dom(),
        forall|v: u64|
            #![trigger l2.vaults.contains_key(v)]
            l2.vaults.contains_key(v) ==> l2.vaults[v].locked.0 == l.vaults[v].locked.0 + pending_input(v)(x)
                - (if l.intents.contains_key(k) { pending_input(v)(l.intents[k]) } else { 0 }),
    ensures
        locks_balanced(l2),
{
    assert forall|v: u64|
        #![trigger l2.vaults.contains_key(v)]
        l2.vaults.contains_key(v) implies l2.vaults[v].locked.0
        == map_sum(l2.intents, pending_input(v)) by {
        assert(l.vaults.contains_key(v));
        lemma_map_sum_insert(l.intents, k, x, pending_input(v));
    }
}

pub(crate) proof fn lemma_deposit_vault_locks(l: LedgerView, vault: VaultId, amount: Amount)
    requires
        locks_balanced(l),
    ensures
        locks_balanced(deposit_vault_spec(l, vault, amount).0),
{
    let l2 = deposit_vault_spec(l, vault, amount).0;
    if l.vaults.contains_key(vault.0) {
        assert(l2.vaults.dom() =~= l.vaults.dom());
    }
    lemma_locks_frame(l, l2);
}

pub(crate) proof fn lemma_create_vault_locks(
    l: LedgerView,
    asset: AssetId,
    controller: AccountId,
    kind: VaultKind,
)
    requires
        no_pending_draws_on(l, l.next_vault),
        locks_balanced(l),
    ensures
        locks_balanced(create_vault_spec(l, asset, controller, kind).0),
{
    let l2 = create_vault_spec(l, asset, controller, kind).0;
    if create_vault_spec(l, asset, controller, kind).1 is Ok {
        let id = l.next_vault;
        lemma_map_sum_zero(l.intents, pending_input(id));
        assert forall|v: u64|
            #![trigger l2.vaults.contains_key(v)]
            l2.vaults.contains_key(v) implies l2.vaults[v].locked.0
            == map_sum(l2.intents, pending_input(v)) by {
            if v != id {
                assert(l.vaults.contains_key(v));
            }
        }
    }
}

/// In a linked ledger no pending intent draws on the vault id that the next
/// vault will get.
pub proof fn linked_ledger_has_no_draws_on_next_vault(l: LedgerView)
    requires
        l.linked(),
    ensures
        no_pending_draws_on(l, l.next_vault),
{
    let id = l.next_vault;
    assert forall|k: u64| #[trigger] l.intents.contains_key(k) implies pending_input(id)(
        l.intents[k],
    ) == 0 by {
        let t = l.intents[k].intent;
        assert(intent_fits(l, t));
        assert(route_fits(l, l.routes[t.route.0]));
        assert(l.vaults.contains_key(t.source_vault.0));
    }
}

pub(crate) proof fn lemma_submit_intent_locks(
    l: LedgerView,
    owner: AccountId,
    recipient: AccountId,
    route_id: RouteId,
    amount_in: Amount,
    min_amount_out: Amount,
    deadline_slot: u64,
    nonce: u64,
)
    requires
        !l.intents.contains_key(l.next_intent),
        locks_balanced(l),
    ensures
        locks_balanced(
            submit_intent_spec(
                l,
                owner,
                recipient,
                route_id,
                amount_in,
                min_amount_out,
                deadline_slot,
                nonce,
            ).0,
        ),
{
    let (l2, r) = submit_intent_spec(
        l,
        owner,
        recipient,
        route_id,
        amount_in,
        min_amount_out,
        deadline_slot,
        nonce,
    );
    if let Ok((route, gross, fee)) = intent_quote(l, owner, recipient, route_id, amount_in, min_amount_out) {
        let sv = route.source_vault.0;
        lemma_vault_steps(l.vaults, sv, amount_in);
        if r is Ok {
            let id = l.next_intent;
            lemma_locks_swap(l, l2, id, l2.intents[id]);
        } else {
            lemma_locks_frame(l, l2);
        }
    }
}

pub(crate) proof fn lemma_cancel_intent_locks(l: LedgerView, intent: IntentId)
    requires
        locks_balanced(l),
    ensures
        locks_balanced(cancel_intent_spec(l, intent).0),
{
    let (l2, r) = cancel_intent_spec(l, intent);
    if l.intents.contains_key(intent.0) && l.intents[intent.0].status == IntentStatus::Pending {
        let t = l.intents[intent.0].intent;
        lemma_vault_steps(l.vaults, t.source_vault.0, t.amount_in);
        if r is Ok {
            lemma_locks_swap(l, l2, intent.0, l2.intents[intent.0]);
        } else {
            lemma_locks_frame(l, l2);
        }
    }
}

/// A settlement that succeeds, or that is refused before any vault changed,
/// keeps the locks balanced.
pub(crate) proof fn lemma_settle_intent_locks(l: LedgerView, session: SessionId, intent: IntentId)
    requires
        locks_balanced(l),
        settle_intent_spec(l, session, intent).1 is Ok || settle_intent_spec(
            l,
            session,
            intent,
        ).0.vaults == l.vaults,
    ensures
        locks_balanced(settle_intent_spec(l, session, intent).0),
{
    let (l2, r) = settle_intent_spec(l, session, intent);
    if r is Ok {
        let (t, route, gross, fee, net) = settle_quote(l, intent)->Ok_0;
        assert(l2.intents == l.intents.insert(
            intent.0,
            QueuedIntent { status: IntentStatus::Settled, ..l.intents[intent.0] },
        ));
        let sv = t.source_vault.0;
        let tv = t.target_vault.0;
        let v1 = consume_at(l.vaults, sv, t.amount_in).0;
        assert(l2.vaults == pay_out_at(v1, tv, gross).0);
        lemma_vault_steps(l.vaults, sv, t.amount_in);
        lemma_vault_steps(v1, tv, gross);
        lemma_locks_swap(l, l2, intent.0, l2.intents[intent.0]);
    } else {
        lemma_locks_frame(l, l2);
    }
}

} // verus!
