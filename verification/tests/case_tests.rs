use bt_rs::models::bars::{sort_bars, Bar};
use bt_rs::models::execution::{Side, Status};
use bt_rs::models::strategy_case::{CaseError, Signals, StrategyCase};
use bt_rs::models::strategy_config::StrategyConfig;

/// Rows 0..7 of a price table; with a start of 100 and no extra holding day
/// the window is (100, 86500).
fn table() -> Vec<i64> {
    vec![500, 100, 300, 200, 400, 200, 90000]
}

fn config(twap_in: usize, twap_out: usize) -> StrategyConfig {
    StrategyConfig::new(Side::Buy, Some(100), 0, twap_in, twap_out, 10, 250, 250)
}

fn signals(tp: &[bool], sl: &[bool]) -> Signals {
    Signals { take_profit_hit: tp.to_vec(), stop_loss_hit: sl.to_vec() }
}

fn key(bars: &[Bar]) -> Vec<(i64, usize)> {
    bars.iter().map(|b| (b.timestamp, b.row)).collect()
}

#[test]
fn sort_bars_orders_by_time_then_row() {
    let v = vec![
        Bar { timestamp: 5, row: 0 },
        Bar { timestamp: 1, row: 4 },
        Bar { timestamp: 3, row: 2 },
        Bar { timestamp: 1, row: 1 },
        Bar { timestamp: -7, row: 9 },
    ];
    let s = sort_bars(v);
    assert_eq!(key(&s), vec![(-7, 9), (1, 1), (1, 4), (3, 2), (5, 0)]);
    assert!(sort_bars(vec![]).is_empty());
}

#[test]
fn new_selects_window_in_time_order() {
    let case = StrategyCase::new(&table(), config(2, 2)).unwrap();
    assert_eq!(key(&case.bar_data), vec![(200, 3), (200, 5), (300, 2), (400, 4), (500, 0)]);
}

#[test]
fn new_without_start_takes_all_rows() {
    let sc = StrategyConfig::new(Side::Sell, None, 0, 1, 1, 10, 250, 250);
    let case = StrategyCase::new(&table(), sc).unwrap();
    assert_eq!(
        key(&case.bar_data),
        vec![(100, 1), (200, 3), (200, 5), (300, 2), (400, 4), (500, 0), (90000, 6)]
    );
}

#[test]
fn new_window_end_is_exclusive() {
    // start 0, one day: the window is (0, 2 * 86400)
    let data = vec![172800, 172799, 0, 1];
    let sc = StrategyConfig::new(Side::Buy, Some(0), 1, 1, 1, 0, 1, 1);
    let case = StrategyCase::new(&data, sc).unwrap();
    assert_eq!(key(&case.bar_data), vec![(1, 3), (172799, 1)]);
}

#[test]
fn new_fails_without_entry_bars() {
    let late = StrategyConfig::new(Side::Buy, Some(100000), 0, 2, 2, 10, 250, 250);
    assert_eq!(StrategyCase::new(&table(), late).unwrap_err(), CaseError::EntryPrice);
    assert_eq!(StrategyCase::new(&table(), config(0, 2)).unwrap_err(), CaseError::EntryPrice);
    assert_eq!(StrategyCase::new(&vec![], config(2, 2)).unwrap_err(), CaseError::EntryPrice);
}

#[test]
fn unwind_max_holding_without_signals() {
    let case = StrategyCase::new(&table(), config(2, 2)).unwrap();
    let (t, rows, status) = case.unwind(&signals(&[false; 5], &[false; 5])).unwrap();
    assert_eq!(t, 400);
    assert_eq!(rows, vec![0]);
    assert_eq!(status, Status::MaxHolding);
}

#[test]
fn unwind_take_profit_first() {
    let case = StrategyCase::new(&table(), config(2, 2)).unwrap();
    let (t, rows, status) = case
        .unwind(&signals(&[false, true, false, true, false], &[false, false, false, false, true]))
        .unwrap();
    assert_eq!(t, 200);
    assert_eq!(rows, vec![2, 4]);
    assert_eq!(status, Status::TakeProfit);
}

#[test]
fn unwind_stop_loss_first() {
    let case = StrategyCase::new(&table(), config(2, 2)).unwrap();
    let (t, rows, status) = case
        .unwind(&signals(&[false, false, false, true, false], &[false, false, true, false, false]))
        .unwrap();
    assert_eq!(t, 300);
    assert_eq!(rows, vec![4, 0]);
    assert_eq!(status, Status::StopLoss);
}

#[test]
fn unwind_ties_prefer_max_holding_then_take_profit() {
    let case = StrategyCase::new(&table(), config(2, 2)).unwrap();
    let (t, _, status) = case
        .unwind(&signals(&[false, false, false, true, false], &[false; 5]))
        .unwrap();
    assert_eq!((t, status), (400, Status::MaxHolding));
    let (t, rows, status) = case
        .unwind(&signals(&[false, false, true, false, false], &[false, false, true, false, false]))
        .unwrap();
    assert_eq!((t, status), (300, Status::TakeProfit));
    assert_eq!(rows, vec![4, 0]);
}

#[test]
fn unwind_exit_period_longer_than_case() {
    // the maximum holding bar is then the first bar
    let case = StrategyCase::new(&table(), config(2, 9)).unwrap();
    let (t, rows, status) = case.unwind(&signals(&[false; 5], &[false; 5])).unwrap();
    assert_eq!(t, 200);
    assert_eq!(rows, vec![2, 4, 0]);
    assert_eq!(status, Status::MaxHolding);
}

#[test]
fn unwind_errors() {
    let no_exit_period = StrategyCase::new(&table(), config(2, 0)).unwrap();
    assert_eq!(
        no_exit_period.unwind(&signals(&[false; 5], &[false; 5])).unwrap_err(),
        CaseError::MaxHoldingBar
    );
    let last_bar = StrategyCase::new(&table(), config(2, 1)).unwrap();
    assert_eq!(
        last_bar.unwind(&signals(&[false; 5], &[false; 5])).unwrap_err(),
        CaseError::ExitPrice
    );
}

#[test]
fn run_builds_execution() {
    let case = StrategyCase::new(&table(), config(2, 2)).unwrap();
    let e = case
        .run(&signals(&[false, true, false, false, false], &[false; 5]))
        .unwrap();
    assert_eq!(e.entry_rows, vec![3, 5]);
    assert_eq!(e.exit_rows, vec![2, 4]);
    assert_eq!(e.fees_bps, 10);
    assert_eq!(e.status, Status::TakeProfit);
    assert_eq!(e.datetime_in, 200);
    assert_eq!(e.datetime_out, 200);
    assert_eq!(e.side, Side::Buy);
}

#[test]
fn run_reports_status_error_when_unwind_fails() {
    let case = StrategyCase::new(&table(), config(9, 1)).unwrap();
    let e = case.run(&signals(&[false; 5], &[false; 5])).unwrap();
    assert_eq!(e.status, Status::StatusError);
    assert_eq!(e.datetime_out, 0);
    assert!(e.exit_rows.is_empty());
    assert_eq!(e.entry_rows, vec![3, 5, 2, 4, 0]);
    assert_eq!(e.datetime_in, 200);
}

#[test]
fn run_rejects_signals_of_wrong_shape() {
    let case = StrategyCase::new(&table(), config(2, 2)).unwrap();
    assert_eq!(
        case.run(&signals(&[false; 4], &[false; 5])).unwrap_err(),
        CaseError::SignalShape
    );
    assert_eq!(
        case.run(&signals(&[false; 5], &[false; 6])).unwrap_err(),
        CaseError::SignalShape
    );
}

#[test]
fn run_on_case_without_bars() {
    let case = StrategyCase { bar_data: vec![], strategy_config: config(2, 2) };
    assert_eq!(case.run(&signals(&[], &[])).unwrap_err(), CaseError::NoBars);
}

#[test]
fn exit_never_before_entry() {
    let case = StrategyCase::new(&table(), config(2, 3)).unwrap();
    let patterns: Vec<[bool; 5]> = vec![
        [false; 5],
        [true, false, false, false, false],
        [false, false, false, false, true],
        [false, true, true, false, false],
    ];
    for tp in &patterns {
        for sl in &patterns {
            let e = case.run(&signals(tp, sl)).unwrap();
            if e.status != Status::StatusError {
                assert!(e.datetime_in <= e.datetime_out);
                assert!(e.datetime_out <= 300);
                for r in &e.exit_rows {
                    let bar = case.bar_data.iter().find(|b| b.row == *r).unwrap();
                    assert!(bar.timestamp > e.datetime_out);
                }
                assert!(e.exit_rows.len() <= 3);
            }
        }
    }
}
