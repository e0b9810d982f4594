use orbit_dtl::events::Event;
use orbit_dtl::ledger::Ledger;

#[test]
fn demo_texto_muestra_resumen_operativo() {
    let report = Ledger::demo().expect("demo should run");
    let summary = report.summary();

    assert_eq!(summary.accounts, 3);
    assert_eq!(summary.tracked_balances, 3);
    assert_eq!(summary.vaults, 2);
    assert_eq!(summary.sessions, 1);
    assert_eq!(summary.events, 13);
}

#[test]
fn demo_json_expone_cuentas_vaults_sesiones_y_eventos() {
    let report = Ledger::demo().expect("demo should run");

    assert_eq!(report.accounts.len(), 3);
    assert_eq!(report.vaults.len(), 2);
    assert_eq!(report.sessions.len(), 1);
    assert_eq!(report.events.len(), 13);
}

#[test]
fn demo_json_cierra_la_sesion_con_intents_liquidados() {
    let report = Ledger::demo().expect("demo should run");
    let session = report.sessions.values().next().unwrap();
    let included = &session.included_intents;

    assert_eq!(session.closed, true);
    assert_eq!(included.len(), 2);
    assert_eq!(session.counterflow.get(&1).unwrap().raw(), 10_500_000_000u128);
    assert_eq!(session.accounted_counterflow.get(&1).unwrap().raw(), 19_759_259_259u128);
}

#[test]
fn eventos_de_demo_mantienen_flujo_de_liquidacion() {
    let report = Ledger::demo().expect("demo should run");
    let events = &report.events;

    assert!(matches!(events[0], Event::AssetRegistered { .. }));
    assert!(matches!(events[1], Event::AssetRegistered { .. }));
    assert_eq!(
        events
            .iter()
            .filter(|event| matches!(event, Event::IntentQueued { .. }))
            .count(),
        3
    );
    assert_eq!(
        events
            .iter()
            .filter(|event| matches!(event, Event::IntentSettled { .. }))
            .count(),
        2
    );
    assert!(events
        .iter()
        .any(|event| matches!(event, Event::IntentCancelled { .. })));
    assert!(events
        .iter()
        .any(|event| matches!(event, Event::CounterflowRecorded { .. })));
}
