use bt_rs::calendar::holding_end;
use bt_rs::cases::case::Case;
use bt_rs::models::execution::{Execution, Side, Status};
use bt_rs::models::strategy_config::StrategyConfig;
use bt_rs::models::trade_config::TradeConfig;

#[test]
fn trade_config_default_values() {
    let tc = TradeConfig::default();
    assert_eq!(
        format!("{:?}", tc),
        "TradeConfig { period_twap_in: 10, period_twap_out: 10, trading_costs_bps: 0, \
         take_profit_bps: 50, stop_loss_bps: 50, take_profit_trailing: false, \
         take_profit_trailing_period: 5, take_profit_trailing_tolerance_bps: 5 }"
    );
}

#[test]
fn case_is_empty() {
    let c = Case {};
    let _ = c;
}

#[test]
fn strategy_config_new_keeps_fields() {
    let sc = StrategyConfig::new(Side::Sell, Some(42), 7, 15, 16, 10, 250, 300);
    assert_eq!(sc.side, Side::Sell);
    assert_eq!(sc.datetime, Some(42));
    assert_eq!(sc.max_holding_days, 7);
    assert_eq!(sc.period_twap_in, 15);
    assert_eq!(sc.period_twap_out, 16);
    assert_eq!(sc.trading_costs_bps, 10);
    assert_eq!(sc.take_profit_bps, 250);
    assert_eq!(sc.stop_loss_bps, 300);
}

#[test]
fn strategy_config_default_values() {
    let sc = StrategyConfig::default();
    assert_eq!(sc.side, Side::Buy);
    assert_eq!(sc.datetime, Some(1688126400));
    assert_eq!(sc.max_holding_days, 7);
    assert_eq!(sc.period_twap_in, 2);
    assert_eq!(sc.period_twap_out, 10);
    assert_eq!(sc.trading_costs_bps, 10);
    assert_eq!(sc.take_profit_bps, 500);
    assert_eq!(sc.stop_loss_bps, 500);
}

#[test]
fn get_datetime_parses_utc() {
    assert_eq!(StrategyConfig::get_datetime("2023-01-12 12:30:00"), Some(1673526600));
    assert_eq!(StrategyConfig::get_datetime("2023-02-15 12:30:00"), Some(1676464200));
    assert_eq!(StrategyConfig::get_datetime("1970-01-01 00:00:00"), Some(0));
}

#[test]
fn try_get_datetime_rejects_malformed() {
    assert_eq!(StrategyConfig::try_get_datetime("2023-06-30 12:30:00"), Some(1688128200));
    assert_eq!(StrategyConfig::try_get_datetime("2023-06-30"), None);
    assert_eq!(StrategyConfig::try_get_datetime("not a date"), None);
    assert_eq!(StrategyConfig::try_get_datetime("2023-13-01 00:00:00"), None);
}

#[test]
fn fees_are_signed_by_side() {
    let buy = StrategyConfig::new(Side::Buy, None, 7, 15, 15, 10, 250, 250);
    let sell = StrategyConfig::new(Side::Sell, None, 7, 15, 15, 10, 250, 250);
    assert_eq!(buy.fees(), 10);
    assert_eq!(sell.fees(), -10);
    let sell_neg = StrategyConfig::new(Side::Sell, None, 7, 15, 15, -3, 250, 250);
    assert_eq!(sell_neg.fees(), 3);
}

#[test]
fn stop_loss_level_is_negated() {
    let sc = StrategyConfig::new(Side::Buy, None, 7, 15, 15, 10, 250, 300);
    assert_eq!(sc.stop_loss_level(), -300);
    // converted as `as i32` does before negation
    let wide = StrategyConfig::new(Side::Buy, None, 7, 15, 15, 10, 250, (1usize << 32) + 5);
    assert_eq!(wide.stop_loss_level(), -5);
}

#[test]
fn from_csv_reads_rows() {
    let rows = vec![
        vec![1673526600, 1, 7, 15, 15, 10, 250, 250],
        vec![1676464200, 0, 3, 5, 6, 20, 100, 200],
        vec![5, 2, 1, 1, 1, 4294967297, 1, 1],
    ];
    let scs = StrategyConfig::from_csv(&rows);
    assert_eq!(scs.len(), 3);
    assert_eq!(scs[0].side, Side::Buy);
    assert_eq!(scs[0].datetime, Some(1673526600));
    assert_eq!(scs[0].max_holding_days, 7);
    assert_eq!(scs[0].period_twap_in, 15);
    assert_eq!(scs[0].period_twap_out, 15);
    assert_eq!(scs[0].trading_costs_bps, 10);
    assert_eq!(scs[0].take_profit_bps, 250);
    assert_eq!(scs[0].stop_loss_bps, 250);
    assert_eq!(scs[1].side, Side::Sell);
    assert_eq!(scs[1].datetime, Some(1676464200));
    assert_eq!(scs[1].max_holding_days, 3);
    assert_eq!(scs[1].period_twap_in, 5);
    assert_eq!(scs[1].period_twap_out, 6);
    assert_eq!(scs[1].trading_costs_bps, 20);
    assert_eq!(scs[1].take_profit_bps, 100);
    assert_eq!(scs[1].stop_loss_bps, 200);
    assert_eq!(scs[2].side, Side::Sell);
    assert_eq!(scs[2].trading_costs_bps, 1);
}

#[test]
fn from_csv_empty() {
    let rows: Vec<Vec<i64>> = vec![];
    assert!(StrategyConfig::from_csv(&rows).is_empty());
}

#[test]
fn holding_end_adds_days() {
    assert_eq!(holding_end(0, 7), Some(8 * 86400));
    assert_eq!(holding_end(1673526600, 0), Some(1673526600 + 86400));
    assert_eq!(holding_end(100, -1), Some(100));
    assert_eq!(holding_end(0, i64::MAX), None);
    assert_eq!(holding_end(i64::MAX - 10, 7), None);
    assert_eq!(holding_end(0, i64::MAX / 86400), None);
}

#[test]
fn holding_end_at_the_calendar_bounds() {
    // chrono represents timestamps from -8334601228800 to 8210266876799
    let max = 8210266876799i64;
    let min = -8334601228800i64;
    assert_eq!(holding_end(max - 86400, 0), Some(max));
    assert_eq!(holding_end(max - 86399, 0), None);
    assert_eq!(holding_end(max + 1, -1), None);
    assert_eq!(holding_end(min, -1), Some(min));
    assert_eq!(holding_end(min, -2), None);
    assert_eq!(holding_end(min - 1, 0), None);
}

#[test]
fn labels_of_status_and_side() {
    assert_eq!(Status::TakeProfit.label(), "TakeProfit");
    assert_eq!(Status::StopLoss.label(), "StopLoss");
    assert_eq!(Status::MaxHolding.label(), "MaxHolding");
    assert_eq!(Status::StatusError.label(), "StatusError");
    assert_eq!(Side::Buy.label(), "Buy");
    assert_eq!(Side::Sell.label(), "Sell");
}

#[test]
fn execution_new_keeps_fields() {
    let e = Execution::new(vec![1, 2], vec![3], 10, Status::TakeProfit, 10, 20, Side::Buy);
    assert_eq!(e.entry_rows, vec![1, 2]);
    assert_eq!(e.exit_rows, vec![3]);
    assert_eq!(e.fees_bps, 10);
    assert_eq!(e.status, Status::TakeProfit);
    assert_eq!(e.datetime_in, 10);
    assert_eq!(e.datetime_out, 20);
    assert_eq!(e.side, Side::Buy);
}
