use orbit_dtl::accounts::Account;
use orbit_dtl::amount::{Amount, BPS_DENOMINATOR};
use orbit_dtl::asset::{Asset, AssetRegistry};
use orbit_dtl::error::OrbitError;
use orbit_dtl::ids::{AccountId, AssetId, IntentId, RouteId, SessionId, VaultId};
use orbit_dtl::oracle::{Oracle, Price};
use orbit_dtl::orders::{IntentStatus, QueuedIntent, TransferIntent};
use orbit_dtl::risk::RiskEngine;
use orbit_dtl::routes::{RouteBook, RouteConfig};
use orbit_dtl::session::SettlementSession;
use orbit_dtl::vault::{Vault, VaultKind};

fn asset(id: u64, decimals: u8, enabled: bool) -> Asset {
    Asset {
        id: AssetId::new(id),
        symbol: format!("A{id}"),
        decimals,
        risk_weight_bps: 1_000,
        enabled,
    }
}

fn route(id: u64, fee_bps: u16, relayer_bps: u16, enabled: bool) -> RouteConfig {
    RouteConfig {
        id: RouteId::new(id),
        name: "r".to_string(),
        source_asset: AssetId::new(1),
        target_asset: AssetId::new(2),
        source_vault: VaultId::new(1),
        target_vault: VaultId::new(2),
        operator: AccountId::new(1),
        fee_bps,
        relayer_bps,
        max_unhedged: Amount::new(100),
        session_limit: Amount::new(150),
        min_confidence_bps: 9_000,
        enabled,
    }
}

#[test]
fn amount_constructors_and_raw() {
    assert_eq!(Amount::zero().raw(), 0);
    assert_eq!(Amount::new(42).raw(), 42);
    assert_eq!(Amount::default(), Amount::zero());
    assert_eq!(BPS_DENOMINATOR, 10_000);
}

#[test]
fn amount_checked_add_and_overflow() {
    assert_eq!(Amount::new(2).checked_add(Amount::new(3)), Ok(Amount::new(5)));
    assert_eq!(
        Amount::new(u128::MAX).checked_add(Amount::new(1)),
        Err(OrbitError::AmountOverflow)
    );
}

#[test]
fn amount_checked_sub_and_insufficient() {
    assert_eq!(Amount::new(5).checked_sub(Amount::new(3)), Ok(Amount::new(2)));
    assert_eq!(
        Amount::new(3).checked_sub(Amount::new(5)),
        Err(OrbitError::InsufficientBalance)
    );
}

#[test]
fn amount_add_then_sub_round_trips() {
    let a = Amount::new(1_234);
    let b = Amount::new(766);
    let sum = a.checked_add(b).unwrap();
    assert_eq!(sum.checked_sub(b), Ok(a));
}

#[test]
fn amount_checked_mul_and_div() {
    assert_eq!(Amount::new(7).checked_mul(6), Ok(Amount::new(42)));
    assert_eq!(Amount::new(u128::MAX).checked_mul(2), Err(OrbitError::AmountOverflow));
    assert_eq!(Amount::new(42).checked_div(5), Ok(Amount::new(8)));
    assert_eq!(Amount::new(42).checked_div(0), Err(OrbitError::AmountOverflow));
}

#[test]
fn amount_saturating_sub_and_min() {
    assert_eq!(Amount::new(5).saturating_sub(Amount::new(3)), Amount::new(2));
    assert_eq!(Amount::new(3).saturating_sub(Amount::new(5)), Amount::zero());
    assert_eq!(Amount::new(3).min(Amount::new(5)), Amount::new(3));
    assert_eq!(Amount::new(9).min(Amount::new(5)), Amount::new(5));
}

#[test]
fn amount_ratio_and_bps_floor() {
    assert_eq!(Amount::new(11_111_111_111).mul_bps_floor(20), Ok(Amount::new(22_222_222)));
    assert_eq!(Amount::new(10).mul_ratio_floor(2, 3), Ok(Amount::new(6)));
    assert_eq!(Amount::new(10).mul_ratio_floor(2, 0), Err(OrbitError::AmountOverflow));
    assert_eq!(
        Amount::new(u128::MAX).mul_ratio_floor(2, 3),
        Err(OrbitError::AmountOverflow)
    );
}

#[test]
fn bps_share_never_exceeds_whole_on_examples() {
    for bps in [0u16, 1, 20, 9_999, 10_000] {
        let share = Amount::new(987_654_321).mul_bps_floor(bps).unwrap();
        assert!(share.raw() <= 987_654_321);
    }
    assert_eq!(Amount::new(987_654_321).mul_bps_floor(10_000), Ok(Amount::new(987_654_321)));
}

#[test]
fn account_credit_and_balance() {
    let mut account = Account::new(AccountId::new(1), "alice".to_string());
    assert_eq!(account.balance(AssetId::new(7)), Amount::zero());
    assert_eq!(account.credit(AssetId::new(7), Amount::new(10)), Ok(()));
    assert_eq!(account.credit(AssetId::new(7), Amount::new(5)), Ok(()));
    assert_eq!(account.balance(AssetId::new(7)), Amount::new(15));
    assert_eq!(account.balance(AssetId::new(8)), Amount::zero());
    assert_eq!(account.balances().len(), 1);
    assert_eq!(account.id, AccountId::new(1));
    assert_eq!(account.label, "alice");
}

#[test]
fn account_credit_overflow_changes_nothing() {
    let mut account = Account::new(AccountId::new(1), "alice".to_string());
    account.credit(AssetId::new(7), Amount::new(u128::MAX)).unwrap();
    assert_eq!(
        account.credit(AssetId::new(7), Amount::new(1)),
        Err(OrbitError::AmountOverflow)
    );
    assert_eq!(account.balance(AssetId::new(7)), Amount::new(u128::MAX));
}

#[test]
fn registry_insert_and_get() {
    let mut registry = AssetRegistry::default();
    assert_eq!(registry.insert(asset(1, 6, true)), Ok(()));
    assert_eq!(registry.insert(asset(2, 18, false)), Ok(()));
    assert_eq!(registry.insert(asset(3, 19, true)), Err(OrbitError::AmountOverflow));
    assert_eq!(registry.get(AssetId::new(1)).unwrap().decimals, 6);
    assert_eq!(registry.get(AssetId::new(1)).unwrap().id, AssetId::new(1));
    let copy = registry.clone();
    assert_eq!(copy.get(AssetId::new(1)).unwrap().symbol, "A1");
    assert_eq!(registry.get(AssetId::new(2)).unwrap_err(), OrbitError::AssetDisabled);
    assert_eq!(registry.get(AssetId::new(3)).unwrap_err(), OrbitError::AssetNotFound);
}

#[test]
fn route_book_get_and_fees() {
    let mut book = RouteBook::default();
    book.insert(route(1, 18, 2, true));
    book.insert(route(2, 18, 2, false));
    assert_eq!(book.get(RouteId::new(1)).unwrap().total_fee_bps(), Ok(20));
    assert_eq!(book.get(RouteId::new(2)).unwrap_err(), OrbitError::RouteDisabled);
    assert_eq!(book.get(RouteId::new(3)).unwrap_err(), OrbitError::RouteNotFound);
    assert_eq!(route(1, u16::MAX, 1, true).total_fee_bps(), Err(OrbitError::AmountOverflow));
}

#[test]
fn oracle_prices_and_quotes() {
    let mut registry = AssetRegistry::default();
    registry.insert(asset(1, 6, true)).unwrap();
    registry.insert(asset(2, 6, true)).unwrap();
    registry.insert(asset(3, 8, true)).unwrap();
    registry.insert(asset(4, 6, false)).unwrap();
    let mut oracle = Oracle::default();
    assert_eq!(oracle.price(AssetId::new(1)), Err(OrbitError::PriceNotAvailable));
    for (id, price) in [(1u64, 100_000_000u128), (2, 108_000_000), (3, 200_000_000), (4, 1)] {
        oracle.set_price(Price {
            asset: AssetId::new(id),
            price_e8: price,
            confidence_bps: 9_900,
            slot: 1,
        });
    }
    assert_eq!(oracle.price(AssetId::new(2)).unwrap().price_e8, 108_000_000);
    assert_eq!(
        oracle.quote(&registry, AssetId::new(1), AssetId::new(2), Amount::new(12_000_000_000)),
        Ok(Amount::new(11_111_111_111))
    );
    // 2 units (6 decimals) at price 1 into an asset with 8 decimals at price 2.
    assert_eq!(
        oracle.quote(&registry, AssetId::new(1), AssetId::new(3), Amount::new(2_000_000)),
        Ok(Amount::new(100_000_000))
    );
    assert_eq!(
        oracle.quote(&registry, AssetId::new(1), AssetId::new(4), Amount::new(1)),
        Err(OrbitError::AssetDisabled)
    );
    assert_eq!(
        oracle.quote(&registry, AssetId::new(9), AssetId::new(1), Amount::new(1)),
        Err(OrbitError::AssetNotFound)
    );
    oracle.set_price(Price { asset: AssetId::new(2), price_e8: 0, confidence_bps: 9_900, slot: 2 });
    assert_eq!(
        oracle.quote(&registry, AssetId::new(1), AssetId::new(2), Amount::new(1)),
        Err(OrbitError::PriceNotAvailable)
    );
}

#[test]
fn vault_lifecycle_and_bookkeeping() {
    let mut vault = Vault::new(VaultId::new(1), AssetId::new(1), AccountId::new(1), VaultKind::Reserve);
    assert_eq!(vault.available(), Amount::zero());
    vault.deposit(Amount::new(100)).unwrap();
    vault.accrue(Amount::new(10)).unwrap();
    assert_eq!((vault.reserve, vault.received), (Amount::new(110), Amount::new(110)));
    assert_eq!(vault.reserve(Amount::new(200)), Err(OrbitError::InsufficientBalance));
    vault.reserve(Amount::new(60)).unwrap();
    assert_eq!(vault.available(), Amount::new(50));
    assert_eq!(vault.pay_out(Amount::new(51)), Err(OrbitError::InsufficientBalance));
    vault.pay_out(Amount::new(50)).unwrap();
    vault.consume_reserved(Amount::new(40)).unwrap();
    vault.release_reserved(Amount::new(20)).unwrap();
    assert_eq!(vault.release_reserved(Amount::new(1)), Err(OrbitError::InsufficientBalance));
    assert_eq!(vault.consume_reserved(Amount::new(1)), Err(OrbitError::InsufficientBalance));
    assert_eq!(vault.reserve, Amount::new(20));
    assert_eq!(vault.locked, Amount::zero());
    assert_eq!(vault.paid, Amount::new(90));
    assert_eq!(vault.reserve.raw() + vault.paid.raw(), vault.received.raw());
    assert_eq!(vault.kind, VaultKind::Reserve);
}

#[test]
fn vault_deposit_overflow_after_reserve_grew() {
    let mut vault = Vault::new(VaultId::new(1), AssetId::new(1), AccountId::new(1), VaultKind::Buffer);
    vault.received = Amount::new(u128::MAX);
    assert_eq!(vault.deposit(Amount::new(1)), Err(OrbitError::AmountOverflow));
    assert_eq!(vault.reserve, Amount::new(1));
    assert_eq!(vault.received, Amount::new(u128::MAX));
}

#[test]
fn session_counterflow_and_allowance() {
    let mut session = SettlementSession::new(SessionId::new(1), 7);
    assert_eq!(session.opened_slot, 7);
    session.add_counterflow(RouteId::new(1), Amount::new(100)).unwrap();
    session.add_counterflow(RouteId::new(1), Amount::new(5)).unwrap();
    assert_eq!(session.counterflow_allowance(RouteId::new(1), Amount::new(60)), Ok(Amount::new(60)));
    assert_eq!(session.counterflow_allowance(RouteId::new(1), Amount::new(200)), Ok(Amount::new(105)));
    assert_eq!(session.counterflow_allowance(RouteId::new(2), Amount::new(200)), Ok(Amount::zero()));
    assert_eq!(*session.accounted_counterflow.get(&1).unwrap(), Amount::new(165));
    session.include_intent(IntentId::new(4));
    session.close();
    assert!(session.closed);
    assert_eq!(session.included_intents, vec![IntentId::new(4)]);
    assert_eq!(
        session.add_counterflow(RouteId::new(1), Amount::new(u128::MAX)),
        Err(OrbitError::AmountOverflow)
    );
}

#[test]
fn risk_engine_checks_in_order() {
    let r = route(1, 18, 2, true);
    let mut engine = RiskEngine::new(Amount::new(120), Amount::new(200));
    // residual 150 - 40 = 110 > max_unhedged 100
    assert_eq!(
        engine.authorize(&r, AccountId::new(1), Amount::new(150), Amount::new(40)),
        Err(OrbitError::RouteCapacityExceeded)
    );
    assert_eq!(engine.authorize(&r, AccountId::new(1), Amount::new(100), Amount::zero()), Ok(()));
    // route residual would reach 160 > session limit 150
    assert_eq!(
        engine.authorize(&r, AccountId::new(2), Amount::new(60), Amount::zero()),
        Err(OrbitError::SettlementLimitExceeded)
    );
    // account notional would reach 130 > 120
    assert_eq!(
        engine.authorize(&r, AccountId::new(1), Amount::new(30), Amount::new(30)),
        Err(OrbitError::SettlementLimitExceeded)
    );
    assert_eq!(engine.authorize(&r, AccountId::new(2), Amount::new(90), Amount::new(90)), Ok(()));
    // session notional would reach 210 > 200
    assert_eq!(
        engine.authorize(&r, AccountId::new(3), Amount::new(20), Amount::new(20)),
        Err(OrbitError::SettlementLimitExceeded)
    );
    assert_eq!(engine.snapshot.session_notional, Amount::new(190));
    assert_eq!(*engine.snapshot.route_residual.get(&1).unwrap(), Amount::new(100));
    assert_eq!(*engine.snapshot.account_notional.get(&2).unwrap(), Amount::new(90));
}

#[test]
fn queued_intent_starts_pending() {
    let intent = TransferIntent {
        id: IntentId::new(1),
        owner: AccountId::new(1),
        recipient: AccountId::new(2),
        source_asset: AssetId::new(1),
        target_asset: AssetId::new(2),
        source_vault: VaultId::new(1),
        target_vault: VaultId::new(2),
        route: RouteId::new(1),
        amount_in: Amount::new(10),
        min_amount_out: Amount::new(9),
        deadline_slot: 5,
        nonce: 1,
    };
    let queued = QueuedIntent::new(intent, Amount::new(10), Amount::new(1), 3);
    assert_eq!(queued.status, IntentStatus::Pending);
    assert_eq!(queued.created_slot, 3);
    assert_eq!(queued.intent, intent);
}
