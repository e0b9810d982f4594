use orbit_dtl::amount::Amount;
use orbit_dtl::error::OrbitError;
use orbit_dtl::events::Event;
use orbit_dtl::ids::{AccountId, AssetId, IntentId, RouteId, SessionId, TxId, VaultId};
use orbit_dtl::ledger::Ledger;
use orbit_dtl::orders::IntentStatus;
use orbit_dtl::routes::RouteConfig;
use orbit_dtl::vault::VaultKind;

struct Setup {
    ledger: Ledger,
    operator: AccountId,
    alice: AccountId,
    bob: AccountId,
    usd: AssetId,
    eur: AssetId,
    usd_vault: VaultId,
    eur_vault: VaultId,
    route: RouteId,
}

fn route_config(setup_usd: AssetId, setup_eur: AssetId, usd_vault: VaultId, eur_vault: VaultId, operator: AccountId, enabled: bool) -> RouteConfig {
    RouteConfig {
        id: RouteId::new(0),
        name: "usd-eur".to_string(),
        source_asset: setup_usd,
        target_asset: setup_eur,
        source_vault: usd_vault,
        target_vault: eur_vault,
        operator,
        fee_bps: 18,
        relayer_bps: 2,
        max_unhedged: Amount::new(16_000_000_000),
        session_limit: Amount::new(60_000_000_000),
        min_confidence_bps: 9_800,
        enabled,
    }
}

fn setup() -> Setup {
    let mut ledger = Ledger::new();
    let operator = ledger.create_account("operator".to_string());
    let alice = ledger.create_account("alice".to_string());
    let bob = ledger.create_account("bob".to_string());
    let usd = ledger.register_asset("oUSD".to_string(), 6, 1_000).unwrap();
    let eur = ledger.register_asset("oEUR".to_string(), 6, 1_050).unwrap();
    ledger.set_price(usd, 100_000_000, 9_950).unwrap();
    ledger.set_price(eur, 108_000_000, 9_930).unwrap();
    let usd_vault = ledger.create_vault(usd, operator, VaultKind::Settlement).unwrap();
    let eur_vault = ledger.create_vault(eur, operator, VaultKind::Settlement).unwrap();
    ledger.deposit_vault(usd_vault, Amount::new(600_000_000_000)).unwrap();
    ledger.deposit_vault(eur_vault, Amount::new(520_000_000_000)).unwrap();
    let route = ledger
        .add_route(route_config(usd, eur, usd_vault, eur_vault, operator, true))
        .unwrap();
    Setup { ledger, operator, alice, bob, usd, eur, usd_vault, eur_vault, route }
}

#[test]
fn ids_are_handed_out_in_sequence() {
    let s = setup();
    assert_eq!((s.operator, s.alice, s.bob), (AccountId::new(1), AccountId::new(2), AccountId::new(3)));
    assert_eq!((s.usd, s.eur), (AssetId::new(1), AssetId::new(2)));
    assert_eq!((s.usd_vault, s.eur_vault), (VaultId::new(1), VaultId::new(2)));
    assert_eq!(s.route, RouteId::new(1));
    assert_eq!(s.ledger.events.len(), 5);
}

#[test]
fn register_asset_refuses_too_many_decimals_but_uses_the_id() {
    let mut ledger = Ledger::new();
    assert_eq!(ledger.register_asset("X".to_string(), 19, 0), Err(OrbitError::AmountOverflow));
    assert_eq!(ledger.register_asset("Y".to_string(), 6, 0), Ok(AssetId::new(2)));
    assert_eq!(ledger.events.len(), 1);
}

#[test]
fn set_price_and_vault_need_known_assets_and_accounts() {
    let mut s = setup();
    assert_eq!(s.ledger.set_price(AssetId::new(9), 1, 1), Err(OrbitError::AssetNotFound));
    assert_eq!(
        s.ledger.create_vault(s.usd, AccountId::new(9), VaultKind::Buffer),
        Err(OrbitError::AccountNotFound)
    );
    assert_eq!(
        s.ledger.create_vault(AssetId::new(9), s.operator, VaultKind::Buffer),
        Err(OrbitError::AssetNotFound)
    );
    assert_eq!(s.ledger.deposit_vault(VaultId::new(9), Amount::new(1)), Err(OrbitError::VaultNotFound));
    assert_eq!(
        s.ledger.credit_account(AccountId::new(9), s.usd, Amount::new(1)),
        Err(OrbitError::AccountNotFound)
    );
    s.ledger.credit_account(s.alice, s.usd, Amount::new(5)).unwrap();
    assert_eq!(s.ledger.accounts.get(&s.alice.raw()).unwrap().balance(s.usd), Amount::new(5));
}

#[test]
fn add_route_refuses_mismatched_vaults() {
    let mut s = setup();
    assert_eq!(
        s.ledger.add_route(route_config(s.usd, s.eur, s.eur_vault, s.usd_vault, s.operator, true)),
        Err(OrbitError::InvalidVaultAsset)
    );
    assert_eq!(
        s.ledger.add_route(route_config(s.usd, s.eur, VaultId::new(9), s.eur_vault, s.operator, true)),
        Err(OrbitError::VaultNotFound)
    );
    assert_eq!(
        s.ledger.add_route(route_config(s.usd, s.eur, s.usd_vault, s.eur_vault, AccountId::new(9), true)),
        Err(OrbitError::AccountNotFound)
    );
}

#[test]
fn submit_intent_quotes_and_locks_input() {
    let mut s = setup();
    let id = s
        .ledger
        .submit_intent(s.alice, s.bob, s.route, Amount::new(12_000_000_000), Amount::new(11_050_000_000), 100, 1)
        .unwrap();
    assert_eq!(id, IntentId::new(1));
    let queued = s.ledger.intents.get(&1).unwrap();
    assert_eq!(queued.status, IntentStatus::Pending);
    assert_eq!(queued.quoted_amount_out, Amount::new(11_111_111_111));
    assert_eq!(queued.quoted_fee, Amount::new(22_222_222));
    assert_eq!(s.ledger.vaults.get(&1).unwrap().locked, Amount::new(12_000_000_000));
}

#[test]
fn submit_intent_refusals() {
    let mut s = setup();
    assert_eq!(
        s.ledger.submit_intent(AccountId::new(9), s.bob, s.route, Amount::new(1), Amount::new(0), 1, 1),
        Err(OrbitError::AccountNotFound)
    );
    assert_eq!(
        s.ledger.submit_intent(s.alice, s.bob, RouteId::new(9), Amount::new(1), Amount::new(0), 1, 1),
        Err(OrbitError::RouteNotFound)
    );
    assert_eq!(
        s.ledger.submit_intent(s.alice, s.bob, s.route, Amount::new(12_000_000_000), Amount::new(11_100_000_000), 1, 1),
        Err(OrbitError::MinimumOutput)
    );
    assert_eq!(
        s.ledger.submit_intent(s.alice, s.bob, s.route, Amount::new(700_000_000_000), Amount::new(0), 1, 1),
        Err(OrbitError::InsufficientBalance)
    );
    s.ledger.set_price(s.eur, 108_000_000, 9_000).unwrap();
    assert_eq!(
        s.ledger.submit_intent(s.alice, s.bob, s.route, Amount::new(1), Amount::new(0), 1, 1),
        Err(OrbitError::PriceConfidence)
    );
    assert_eq!(s.ledger.events.len(), 5);
}

#[test]
fn price_missing_refuses_submission() {
    let mut ledger = Ledger::new();
    let a = ledger.create_account("a".to_string());
    let usd = ledger.register_asset("oUSD".to_string(), 6, 0).unwrap();
    let eur = ledger.register_asset("oEUR".to_string(), 6, 0).unwrap();
    let v1 = ledger.create_vault(usd, a, VaultKind::Reserve).unwrap();
    let v2 = ledger.create_vault(eur, a, VaultKind::Reserve).unwrap();
    let route = ledger.add_route(route_config(usd, eur, v1, v2, a, true)).unwrap();
    assert_eq!(
        ledger.submit_intent(a, a, route, Amount::new(1), Amount::new(0), 1, 1),
        Err(OrbitError::PriceNotAvailable)
    );
}

#[test]
fn settled_intent_cannot_be_settled_or_cancelled_again() {
    let mut s = setup();
    let id = s
        .ledger
        .submit_intent(s.alice, s.bob, s.route, Amount::new(12_000_000_000), Amount::new(0), 100, 1)
        .unwrap();
    let session = s.ledger.open_session();
    assert_eq!(s.ledger.settle_intent(session, id), Ok(TxId::new(1)));
    assert_eq!(s.ledger.intents.get(&id.raw()).unwrap().status, IntentStatus::Settled);
    assert_eq!(s.ledger.settle_intent(session, id), Err(OrbitError::IntentNotPending));
    assert_eq!(s.ledger.cancel_intent(id), Err(OrbitError::IntentNotPending));
    let bob = s.ledger.accounts.get(&s.bob.raw()).unwrap();
    let operator = s.ledger.accounts.get(&s.operator.raw()).unwrap();
    assert_eq!(bob.balance(s.eur).raw() + operator.balance(s.eur).raw(), 11_111_111_111);
    assert_eq!(operator.balance(s.eur), Amount::new(22_222_222));
    match s.ledger.events.last().unwrap() {
        Event::IntentSettled { net_out, fee, gross_out, counterflow_credit, .. } => {
            assert_eq!(net_out.raw() + fee.raw(), gross_out.raw());
            assert_eq!(*counterflow_credit, Amount::zero());
        }
        _ => panic!("last event should be the settlement"),
    }
    let session_state = s.ledger.sessions.get(&session.raw()).unwrap();
    assert_eq!(session_state.included_intents, vec![id]);
}

#[test]
fn cancelled_intent_releases_and_is_final() {
    let mut s = setup();
    let id = s
        .ledger
        .submit_intent(s.alice, s.bob, s.route, Amount::new(2_000_000_000), Amount::new(0), 100, 3)
        .unwrap();
    assert_eq!(s.ledger.cancel_intent(id), Ok(()));
    assert_eq!(s.ledger.vaults.get(&1).unwrap().locked, Amount::zero());
    assert_eq!(s.ledger.cancel_intent(id), Err(OrbitError::IntentNotPending));
    let session = s.ledger.open_session();
    assert_eq!(s.ledger.settle_intent(session, id), Err(OrbitError::IntentNotPending));
    assert_eq!(s.ledger.cancel_intent(IntentId::new(9)), Err(OrbitError::IntentNotFound));
}

#[test]
fn disabled_route_moves_nothing_on_concrete_ledger() {
    let mut s = setup();
    let disabled = s
        .ledger
        .add_route(route_config(s.usd, s.eur, s.usd_vault, s.eur_vault, s.operator, false))
        .unwrap();
    let session = s.ledger.open_session();
    assert_eq!(
        s.ledger.record_counterflow(session, disabled, Amount::new(1)),
        Err(OrbitError::RouteDisabled)
    );
    assert_eq!(
        s.ledger.submit_intent(s.alice, s.bob, disabled, Amount::new(1), Amount::new(0), 1, 1),
        Err(OrbitError::RouteDisabled)
    );
}

#[test]
fn settlement_refusals() {
    let mut s = setup();
    let id = s
        .ledger
        .submit_intent(s.alice, s.bob, s.route, Amount::new(12_000_000_000), Amount::new(0), 100, 1)
        .unwrap();
    assert_eq!(s.ledger.settle_intent(SessionId::new(9), id), Err(OrbitError::SessionNotFound));
    assert_eq!(s.ledger.settle_intent(SessionId::new(1), IntentId::new(9)), Err(OrbitError::IntentNotFound));
    assert_eq!(
        s.ledger.record_counterflow(SessionId::new(9), s.route, Amount::new(1)),
        Err(OrbitError::SessionNotFound)
    );
}

#[test]
fn expired_intent_is_not_pending() {
    let mut s = setup();
    let first = s
        .ledger
        .submit_intent(s.alice, s.bob, s.route, Amount::new(1_000_000), Amount::new(0), 1, 1)
        .unwrap();
    let second = s
        .ledger
        .submit_intent(s.alice, s.bob, s.route, Amount::new(1_000_000), Amount::new(0), 1, 2)
        .unwrap();
    let session = s.ledger.open_session();
    s.ledger.settle_intent(session, first).unwrap();
    // The slot advanced past the deadline of the second intent.
    assert_eq!(s.ledger.settle_intent(session, second), Err(OrbitError::IntentNotPending));
}

#[test]
fn risk_refusal_moves_no_funds_on_concrete_ledger() {
    let mut s = setup();
    let id = s
        .ledger
        .submit_intent(s.alice, s.bob, s.route, Amount::new(20_000_000_000), Amount::new(0), 100, 1)
        .unwrap();
    let session = s.ledger.open_session();
    let vaults_before: Vec<_> = s.ledger.vaults.values().copied().collect();
    // Gross out 18_518_518_518 exceeds the unhedged limit of 16_000_000_000.
    assert_eq!(s.ledger.settle_intent(session, id), Err(OrbitError::RouteCapacityExceeded));
    let vaults_after: Vec<_> = s.ledger.vaults.values().copied().collect();
    assert_eq!(vaults_before, vaults_after);
    assert_eq!(s.ledger.accounts.get(&s.bob.raw()).unwrap().balance(s.eur), Amount::zero());
    assert_eq!(s.ledger.intents.get(&id.raw()).unwrap().status, IntentStatus::Pending);
}

#[test]
fn counterflow_offsets_the_unhedged_residual() {
    let mut s = setup();
    let id = s
        .ledger
        .submit_intent(s.alice, s.bob, s.route, Amount::new(20_000_000_000), Amount::new(0), 100, 1)
        .unwrap();
    let session = s.ledger.open_session();
    s.ledger.record_counterflow(session, s.route, Amount::new(5_000_000_000)).unwrap();
    assert!(s.ledger.settle_intent(session, id).is_ok());
    let state = s.ledger.sessions.get(&session.raw()).unwrap();
    assert_eq!(*state.accounted_counterflow.get(&s.route.raw()).unwrap(), Amount::new(5_000_000_000));
    assert_eq!(
        *s.ledger.risk.snapshot.route_residual.get(&s.route.raw()).unwrap(),
        Amount::new(13_518_518_518)
    );
}

#[test]
fn demo_scenario_figures() {
    let report = Ledger::demo().unwrap();
    let summary = report.summary();
    assert_eq!(summary.reserve_units, 1_082_629_629_630);
    assert_eq!(report.vaults.get(&1).unwrap().reserve, Amount::new(578_000_000_000));
    assert_eq!(report.vaults.get(&2).unwrap().reserve, Amount::new(504_629_629_630));
    assert_eq!(report.vaults.get(&1).unwrap().paid, Amount::new(22_000_000_000));
    assert_eq!(report.vaults.get(&2).unwrap().paid, Amount::new(20_370_370_370));
    assert_eq!(report.vaults.get(&2).unwrap().received, Amount::new(525_000_000_000));
    assert_eq!(report.accounts.get(&3).unwrap().balance(AssetId::new(2)), Amount::new(20_329_629_630));
    assert_eq!(report.accounts.get(&1).unwrap().balance(AssetId::new(2)), Amount::new(40_740_740));
    assert_eq!(report.accounts.get(&2).unwrap().balance(AssetId::new(1)), Amount::new(35_000_000_000));
}

#[test]
fn locked_input_matches_pending_intents() {
    let mut s = setup();
    let a = s
        .ledger
        .submit_intent(s.alice, s.bob, s.route, Amount::new(3_000_000_000), Amount::new(0), 100, 1)
        .unwrap();
    let b = s
        .ledger
        .submit_intent(s.alice, s.bob, s.route, Amount::new(4_000_000_000), Amount::new(0), 100, 2)
        .unwrap();
    let c = s
        .ledger
        .submit_intent(s.alice, s.bob, s.route, Amount::new(5_000_000_000), Amount::new(0), 100, 3)
        .unwrap();
    assert_eq!(s.ledger.vaults.get(&1).unwrap().locked, Amount::new(12_000_000_000));
    s.ledger.cancel_intent(b).unwrap();
    assert_eq!(s.ledger.vaults.get(&1).unwrap().locked, Amount::new(8_000_000_000));
    let session = s.ledger.open_session();
    s.ledger.settle_intent(session, a).unwrap();
    assert_eq!(s.ledger.vaults.get(&1).unwrap().locked, Amount::new(5_000_000_000));
    let pending: u128 = s
        .ledger
        .intents
        .values()
        .filter(|q| q.status == IntentStatus::Pending && q.intent.source_vault == s.usd_vault)
        .map(|q| q.intent.amount_in.raw())
        .sum();
    assert_eq!(pending, 5_000_000_000);
    assert_eq!(s.ledger.intents.get(&c.raw()).unwrap().status, IntentStatus::Pending);
    let usd = s.ledger.vaults.get(&1).unwrap();
    assert_eq!(usd.reserve.raw() + usd.paid.raw(), usd.received.raw());
    assert!(usd.locked.raw() <= usd.reserve.raw());
}

#[test]
fn failed_payout_keeps_the_consumed_input() {
    let mut ledger = Ledger::new();
    let operator = ledger.create_account("operator".to_string());
    let alice = ledger.create_account("alice".to_string());
    let usd = ledger.register_asset("oUSD".to_string(), 6, 0).unwrap();
    let eur = ledger.register_asset("oEUR".to_string(), 6, 0).unwrap();
    ledger.set_price(usd, 100_000_000, 9_950).unwrap();
    ledger.set_price(eur, 108_000_000, 9_930).unwrap();
    let usd_vault = ledger.create_vault(usd, operator, VaultKind::Settlement).unwrap();
    let eur_vault = ledger.create_vault(eur, operator, VaultKind::Settlement).unwrap();
    ledger.deposit_vault(usd_vault, Amount::new(600_000_000_000)).unwrap();
    ledger.deposit_vault(eur_vault, Amount::new(1_000)).unwrap();
    let route = ledger
        .add_route(route_config(usd, eur, usd_vault, eur_vault, operator, true))
        .unwrap();
    let id = ledger
        .submit_intent(alice, alice, route, Amount::new(12_000_000_000), Amount::new(0), 100, 1)
        .unwrap();
    let session = ledger.open_session();
    assert_eq!(ledger.settle_intent(session, id), Err(OrbitError::InsufficientBalance));
    // The source vault already paid the input, while the intent stays pending.
    let source = ledger.vaults.get(&usd_vault.raw()).unwrap();
    assert_eq!(source.locked, Amount::zero());
    assert_eq!(source.paid, Amount::new(12_000_000_000));
    assert_eq!(ledger.intents.get(&id.raw()).unwrap().status, IntentStatus::Pending);
}

#[test]
fn demo_runs_are_identical() {
    let first = Ledger::demo().unwrap();
    let second = Ledger::demo().unwrap();
    assert_eq!(format!("{first:?}"), format!("{second:?}"));
    assert_eq!(first.accounts.get(&1).unwrap().label, "orbit-operator");
    assert_eq!(first.accounts.get(&3).unwrap().label, "settlement-recipient-b");
    assert_eq!(first.vaults.get(&2).unwrap().kind, VaultKind::Settlement);
    match &first.events[0] {
        Event::AssetRegistered { asset, symbol } => {
            assert_eq!(*asset, AssetId::new(1));
            assert_eq!(symbol, "oUSD");
        }
        _ => panic!("first event should register an asset"),
    }
    match &first.events[12] {
        Event::IntentSettled { tx, net_out, fee, counterflow_credit, .. } => {
            assert_eq!(*tx, TxId::new(2));
            assert_eq!(*net_out, Amount::new(9_240_740_741));
            assert_eq!(*fee, Amount::new(18_518_518));
            assert_eq!(*counterflow_credit, Amount::new(9_259_259_259));
        }
        _ => panic!("last event should be a settlement"),
    }
}

#[test]
fn cancelling_a_new_intent_restores_its_vault_on_concrete_ledger() {
    let mut s = setup();
    let before = *s.ledger.vaults.get(&s.usd_vault.raw()).unwrap();
    let id = s
        .ledger
        .submit_intent(s.alice, s.bob, s.route, Amount::new(7_000_000), Amount::new(0), 100, 9)
        .unwrap();
    s.ledger.cancel_intent(id).unwrap();
    assert_eq!(*s.ledger.vaults.get(&s.usd_vault.raw()).unwrap(), before);
    let session = s.ledger.open_session();
    assert_eq!(s.ledger.settle_intent(session, id), Err(OrbitError::IntentNotPending));
}
