use bt_rs::data::data::DataFactory;
use bt_rs::models::execution::{Execution, Side, Status};
use bt_rs::models::strategy::Strategy;
use bt_rs::models::strategy_case::Signals;
use bt_rs::models::strategy_config::StrategyConfig;

fn quiet(n: usize) -> Signals {
    Signals { take_profit_hit: vec![false; n], stop_loss_hit: vec![false; n] }
}

#[test]
fn strategy_run_skips_trades_that_cannot_run() {
    let data = vec![500, 100, 300, 200, 400, 200, 90000];
    let ok = StrategyConfig::new(Side::Buy, Some(100), 0, 2, 2, 10, 250, 250);
    let late = StrategyConfig::new(Side::Sell, Some(100000), 0, 2, 2, 10, 250, 250);
    let wrong_shape = StrategyConfig::new(Side::Sell, Some(100), 0, 1, 1, 10, 250, 250);
    let error = StrategyConfig::new(Side::Sell, Some(100), 0, 1, 1, 10, 250, 250);
    let strategy = Strategy::new(data, vec![ok, late, wrong_shape, error]);
    let sigs = vec![quiet(5), quiet(0), quiet(4), quiet(5)];
    let executions = strategy.run(&sigs);
    assert_eq!(executions.len(), 2);
    assert_eq!(executions[0].status, Status::MaxHolding);
    assert_eq!(executions[0].side, Side::Buy);
    assert_eq!(executions[0].datetime_in, 200);
    assert_eq!(executions[0].datetime_out, 400);
    assert_eq!(executions[0].entry_rows, vec![3, 5]);
    assert_eq!(executions[0].exit_rows, vec![0]);
    assert_eq!(executions[1].status, Status::StatusError);
    assert_eq!(executions[1].side, Side::Sell);
    assert_eq!(executions[1].fees_bps, -10);
    assert_eq!(executions[1].datetime_out, 0);
}

#[test]
fn strategy_run_without_trades() {
    let strategy = Strategy::new(vec![1, 2, 3], vec![]);
    assert!(strategy.run(&vec![]).is_empty());
}

#[test]
fn concat_columns() {
    let executions = vec![
        Execution::new(vec![0], vec![1], 10, Status::TakeProfit, 10, 20, Side::Buy),
        Execution::new(vec![2], vec![], 10, Status::StatusError, 30, 0, Side::Sell),
        Execution::new(vec![3], vec![4], 10, Status::StopLoss, 40, 50, Side::Sell),
    ];
    let cols = Strategy::concat(&executions);
    assert_eq!(cols.status, vec!["TakeProfit", "StatusError", "StopLoss"]);
    assert_eq!(cols.datetime_in, vec![10, 30, 40]);
    assert_eq!(cols.datetime_out, vec![20, 0, 50]);
    assert_eq!(cols.side, vec!["Buy", "Sell", "Sell"]);
    let empty = Strategy::concat(&vec![]);
    assert!(empty.status.is_empty() && empty.side.is_empty());
}

#[test]
fn data_factory_minute_bars() {
    let f = DataFactory::try_new(5).unwrap();
    assert_eq!(f.timestamps, vec![1688128200, 1688128140, 1688128080, 1688128020, 1688127960]);
    assert_eq!(f.price_moves_bps.len(), 5);
    assert!(f.price_moves_bps.iter().all(|m| -15 <= *m && *m <= 15));
}

#[test]
fn data_factory_is_seeded() {
    let a = DataFactory::new(50);
    let b = DataFactory::new(50);
    assert_eq!(a.price_moves_bps, b.price_moves_bps);
    assert!(a.price_moves_bps.iter().all(|m| -15 <= *m && *m <= 15));
    assert!(a.price_moves_bps.iter().any(|m| *m != a.price_moves_bps[0]));
    assert_eq!(a.timestamps[49], 1688128200 - 49 * 60);
}

#[test]
fn data_factory_shorter_series_is_prefix() {
    let short = DataFactory::new(20);
    let long = DataFactory::try_new(200).unwrap();
    assert_eq!(short.timestamps[..], long.timestamps[..20]);
    assert_eq!(short.price_moves_bps[..], long.price_moves_bps[..20]);
}

#[test]
fn strategy_run_identical_trades() {
    let data = vec![500, 100, 300, 200, 400, 200, 90000];
    let sc = StrategyConfig::new(Side::Buy, Some(100), 0, 2, 2, 10, 250, 250);
    let strategy = Strategy::new(data, vec![sc; 3]);
    let executions = strategy.run(&vec![quiet(5), quiet(5), quiet(5)]);
    assert_eq!(executions.len(), 3);
    for e in &executions {
        assert_eq!(e.status, Status::MaxHolding);
        assert_eq!(e.datetime_in, 200);
        assert_eq!(e.datetime_out, 400);
        assert_eq!(e.entry_rows, vec![3, 5]);
        assert_eq!(e.exit_rows, vec![0]);
    }
}

#[test]
fn data_factory_empty_sizes() {
    assert!(DataFactory::try_new(0).unwrap().timestamps.is_empty());
    let f = DataFactory::try_new(-3).unwrap();
    assert!(f.timestamps.is_empty() && f.price_moves_bps.is_empty());
}

#[test]
fn end_to_end_on_synthetic_data() {
    let f = DataFactory::try_new(60 * 24 * 3).unwrap();
    let start = StrategyConfig::get_datetime("2023-06-28 12:30:00");
    let sc = StrategyConfig::new(Side::Buy, start, 0, 15, 15, 10, 250, 250);
    let strategy = Strategy::new(f.timestamps.clone(), vec![sc]);
    // bars strictly after the start and before start + 1 day
    let n = f.timestamps.iter().filter(|t| **t > start.unwrap() && **t < start.unwrap() + 86400).count();
    let executions = strategy.run(&vec![quiet(n)]);
    assert_eq!(executions.len(), 1);
    let e = &executions[0];
    assert_eq!(e.status, Status::MaxHolding);
    assert_eq!(e.datetime_in, start.unwrap() + 60);
    assert_eq!(e.entry_rows.len(), 15);
    assert_eq!(e.exit_rows.len(), 14);
    assert_eq!(e.datetime_out, start.unwrap() + 86400 - 15 * 60);
}
