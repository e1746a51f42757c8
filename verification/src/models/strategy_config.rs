//! The settings of one trade to back-test.
use vstd::prelude::*;

use super::execution::Side;
use crate::calendar::{datetime_format, parse_timestamp, spec_parse_timestamp};

verus! {

/// The settings of one trade: its side, its start, how long it may be held,
/// how many bars its entry and exit prices are averaged over, its costs and
/// its take-profit and stop-loss levels, all in basis points.
#[derive(Debug, Clone, Copy)]
pub struct StrategyConfig {
    pub side: Side,
    pub datetime: Option<i64>,
    pub max_holding_days: i64,
    pub period_twap_in: usize,
    pub period_twap_out: usize,
    pub trading_costs_bps: i32,
    pub take_profit_bps: usize,
    pub stop_loss_bps: usize,
}

/// The fees of a trade in basis points, signed: a buyer pays the trading
/// costs on top of the price, a seller's proceeds are reduced by them.
pub open spec fn spec_fees(side: Side, trading_costs_bps: i32) -> int {
    match side {
        Side::Buy => trading_costs_bps as int,
        Side::Sell => -trading_costs_bps,
    }
}

/// The settings of a trade read from one row of a table of trade signals,
/// whose columns are: start, side (1 for a buy, anything else a sell),
/// maximum holding days, entry and exit averaging periods, trading costs,
/// take profit and stop loss. Values are converted as Rust's `as` does.
pub open spec fn config_from_row(row: Seq<i64>) -> StrategyConfig {
    StrategyConfig {
        side: if row[1] == 1 { Side::Buy } else { Side::Sell },
        datetime: Some(row[0]),
        max_holding_days: row[2],
        period_twap_in: row[3] as usize,
        period_twap_out: row[4] as usize,
        trading_costs_bps: row[5] as i32,
        take_profit_bps: row[6] as usize,
        stop_loss_bps: row[7] as usize,
    }
}

/// The fees can be computed: negating the trading costs of a sell does not
/// overflow.
pub open spec fn fees_ok(sc: StrategyConfig) -> bool {
    sc.side == Side::Sell ==> sc.trading_costs_bps != i32::MIN
}

/// The stop-loss level can be computed: negating the stop loss, converted to
/// `i32`, does not overflow.
pub open spec fn stop_loss_ok(sc: StrategyConfig) -> bool {
    sc.stop_loss_bps as i32 != i32::MIN
}

impl StrategyConfig {
    pub fn new(
        side: Side,
        datetime: Option<i64>,
        max_holding_days: i64,
        period_twap_in: usize,
        period_twap_out: usize,
        trading_costs_bps: i32,
        take_profit_bps: usize,
        stop_loss_bps: usize,
    ) -> (r: StrategyConfig)
        ensures
            r.side == side,
            r.datetime == datetime,
            r.max_holding_days == max_holding_days,
            r.period_twap_in == period_twap_in,
            r.period_twap_out == period_twap_out,
            r.trading_costs_bps == trading_costs_bps,
            r.take_profit_bps == take_profit_bps,
            r.stop_loss_bps == stop_loss_bps,
    {
        StrategyConfig {
            side,
            datetime,
            max_holding_days,
            period_twap_in,
            period_twap_out,
            trading_costs_bps,
            take_profit_bps,
            stop_loss_bps,
        }
    }

    /// The default settings: a buy starting at 2023-06-30 12:00:00 UTC.
    pub fn default() -> (r: StrategyConfig)
        ensures
            r.side == Side::Buy,
            r.datetime == spec_parse_timestamp("2023-06-30 12:00:00"@, datetime_format()),
            r.max_holding_days == 7,
            r.period_twap_in == 2,
            r.period_twap_out == 10,
            r.trading_costs_bps == 10,
            r.take_profit_bps == 500,
            r.stop_loss_bps == 500,
    {
        StrategyConfig {
            side: Side::Buy,
            datetime: StrategyConfig::try_get_datetime("2023-06-30 12:00:00"),
            max_holding_days: 7,
            period_twap_in: 2,
            period_twap_out: 10,
            trading_costs_bps: 10,
            take_profit_bps: 500,
            stop_loss_bps: 500,
        }
    }

    /// The UTC timestamp of a datetime written as `2023-06-30 12:30:00`, for a
    /// datetime that `chrono` can parse.
    pub fn get_datetime(datetime: &str) -> (r: Option<i64>)
        requires
            spec_parse_timestamp(datetime@, datetime_format()) is Some,
        ensures
            r == spec_parse_timestamp(datetime@, datetime_format()),
            r is Some,
    {
        parse_timestamp(datetime, "%Y-%m-%d %H:%M:%S")
    }

    /// The UTC timestamp of a datetime written as `2023-06-30 12:30:00`, or
    /// `None` where `chrono` cannot parse it.
    pub fn try_get_datetime(datetime: &str) -> (r: Option<i64>)
        ensures
            r == spec_parse_timestamp(datetime@, datetime_format()),
    {
        if parse_timestamp(datetime, "%Y-%m-%d %H:%M:%S").is_some() {
            StrategyConfig::get_datetime(datetime)
        } else {
            None
        }
    }

    /// The fees in basis points: the trading costs for a buy, their negation
    /// for a sell. The fee rate is this over 10,000.
    pub fn fees(&self) -> (r: i32)
        requires
            fees_ok(*self),
        ensures
            r == spec_fees(self.side, self.trading_costs_bps),
    {
        match self.side {
            Side::Buy => self.trading_costs_bps,
            Side::Sell => -self.trading_costs_bps,
        }
    }

    /// The stop-loss level in basis points of performance: the stop loss,
    /// converted to `i32` as `as` does, negated.
    pub fn stop_loss_level(&self) -> (r: i32)
        requires
            stop_loss_ok(*self),
        ensures
            r == -(self.stop_loss_bps as i32),
    {
        let level = #[verifier::truncate] (self.stop_loss_bps as i32);
        -level
    }

    /// The settings read from the rows of a table of trade signals.
    pub fn from_csv(rows: &Vec<Vec<i64>>) -> (r: Vec<StrategyConfig>)
        requires
            forall|i: int| 0 <= i < rows.len() ==> #[trigger] rows[i].len() >= 8,
        ensures
            r.len() == rows.len(),
            forall|i: int| 0 <= i < rows.len() ==> #[trigger] r[i] == config_from_row(rows[i]@),
    {
        let mut ls: Vec<StrategyConfig> = Vec::new();
        for i in 0..rows.len()
            invariant
                forall|k: int| 0 <= k < rows.len() ==> #[trigger] rows[k].len() >= 8,
                ls.len() == i,
                forall|k: int| 0 <= k < i ==> #[trigger] ls[k] == config_from_row(rows[k]@),
        {
            let row = &rows[i];
            assert(rows[i as int].len() >= 8);
            let datetime: i64 = row[0];
            let side: Side = if row[1] == 1 {
                Side::Buy
            } else {
                Side::Sell
            };
            let max_holding_days: i64 = row[2];
            let period_twap_in: usize = #[verifier::truncate] (row[3] as usize);
            let period_twap_out: usize = #[verifier::truncate] (row[4] as usize);
            let trading_costs_bps: i32 = #[verifier::truncate] (row[5] as i32);
            let take_profit_bps: usize = #[verifier::truncate] (row[6] as usize);
            let stop_loss_bps: usize = #[verifier::truncate] (row[7] as usize);
            let tmp = StrategyConfig::new(
                side,
                Some(datetime),
                max_holding_days,
                period_twap_in,
                period_twap_out,
                trading_costs_bps,
                take_profit_bps,
                stop_loss_bps,
            );
            ls.push(tmp);
        }
        ls
    }
}

/// Buy and sell fees for the same trading costs are opposite.
pub proof fn law_fees_opposite(buy: StrategyConfig, sell: StrategyConfig)
    requires
        buy.side == Side::Buy,
        sell.side == Side::Sell,
        buy.trading_costs_bps == sell.trading_costs_bps,
    ensures
        spec_fees(buy.side, buy.trading_costs_bps) == -spec_fees(sell.side, sell.trading_costs_bps),
{
}

/// A buy's fees are its trading costs and a sell's their negation, for every
/// value of the trading costs.
pub proof fn law_fees_are_costs(sc: StrategyConfig)
    ensures
        sc.side == Side::Buy ==> spec_fees(sc.side, sc.trading_costs_bps) == sc.trading_costs_bps as int,
        sc.side == Side::Sell ==> spec_fees(sc.side, sc.trading_costs_bps) == -(
        sc.trading_costs_bps as int),
{
}

/// A row of the signal table is a buy exactly when its side column is 1, and
/// starts at the time in its first column.
pub proof fn law_row_side(row: Seq<i64>)
    requires
        row.len() >= 8,
    ensures
        (config_from_row(row).side == Side::Buy) <==> row[1] == 1,
        (config_from_row(row).side == Side::Sell) <==> row[1] != 1,
        config_from_row(row).datetime == Some(row[0]),
        config_from_row(row).max_holding_days == row[2],
{
}

} // verus!
