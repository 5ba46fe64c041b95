use shred_listener::sink::BenchmarkRecorder;
use shred_listener::sink::clamp_millis;
use shred_listener::topology::StrategyKind;
use shred_listener::topology::Topology;
use shred_listener::topology::needs_pool_init;
use shred_listener::topology::plan;

#[test]
fn enabled_recorder_appends_in_order() {
    let mut r = BenchmarkRecorder::new(true);
    r.observe_at(5, String::from("arb:swap"));
    r.observe_at(9, String::from("pump:launch"));
    assert_eq!(r.log_len(), 2);
    let log = r.into_log();
    assert_eq!(log[0], (5, String::from("arb:swap")));
    assert_eq!(log[1], (9, String::from("pump:launch")));
}

#[test]
fn disabled_recorder_drains_and_discards() {
    let mut r = BenchmarkRecorder::new(false);
    r.observe_at(5, String::from("arb:swap"));
    r.observe_now(String::from("pump:launch"));
    assert_eq!(r.log_len(), 0);
    assert!(r.into_log().is_empty());
}

#[test]
fn observe_now_stamps_with_the_process_clock() {
    let mut r = BenchmarkRecorder::new(true);
    r.observe_now(String::from("grad:listing"));
    assert_eq!(r.log_len(), 1);
    let log = r.into_log();
    assert_eq!(log[0].1, String::from("grad:listing"));
    // The clock read happens after 2020; a recorder that never consulted
    // the clock could not produce such a stamp.
    assert!(log[0].0 > 1_577_836_800_000);
}

#[test]
fn clamp_millis_maps_pre_epoch_readings_to_zero() {
    assert_eq!(clamp_millis(-1), 0);
    assert_eq!(clamp_millis(0), 0);
    assert_eq!(clamp_millis(1_700_000_000_123), 1_700_000_000_123);
}

#[test]
fn direct_topologies_run_one_pipeline_without_join() {
    for (t, s) in [
        (Topology::Arb, StrategyKind::Arbitrage),
        (Topology::Pump, StrategyKind::Pump),
        (Topology::Graduates, StrategyKind::Graduates),
    ] {
        let p = plan(t);
        assert!(!p.replicated);
        assert!(!p.await_join);
        assert_eq!(p.strategies, vec![s]);
    }
}

#[test]
fn replicated_topology_runs_all_three_and_joins() {
    let p = plan(Topology::Replicated);
    assert!(p.replicated);
    assert!(p.await_join);
    assert_eq!(
        p.strategies,
        vec![StrategyKind::Arbitrage, StrategyKind::Pump, StrategyKind::Graduates]
    );
}

#[test]
fn only_arbitrage_needs_pool_initialization() {
    assert!(needs_pool_init(StrategyKind::Arbitrage));
    assert!(!needs_pool_init(StrategyKind::Pump));
    assert!(!needs_pool_init(StrategyKind::Graduates));
}
