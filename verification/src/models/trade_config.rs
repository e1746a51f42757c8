use vstd::prelude::*;

verus! {

/// Settings of a trade with a trailing take profit.
#[derive(Debug)]
pub struct TradeConfig {
    period_twap_in: u32,
    period_twap_out: u32,
    trading_costs_bps: u32,
    take_profit_bps: u32,
    stop_loss_bps: u32,
    take_profit_trailing: bool,
    take_profit_trailing_period: u32,
    take_profit_trailing_tolerance_bps: u32,
}

/// Mathematical model of a [`TradeConfig`].
pub struct TradeConfigView {
    pub period_twap_in: u32,
    pub period_twap_out: u32,
    pub trading_costs_bps: u32,
    pub take_profit_bps: u32,
    pub stop_loss_bps: u32,
    pub take_profit_trailing: bool,
    pub take_profit_trailing_period: u32,
    pub take_profit_trailing_tolerance_bps: u32,
}

impl View for TradeConfig {
    type V = TradeConfigView;

    closed spec fn view(&self) -> TradeConfigView {
        TradeConfigView {
            period_twap_in: self.period_twap_in,
            period_twap_out: self.period_twap_out,
            trading_costs_bps: self.trading_costs_bps,
            take_profit_bps: self.take_profit_bps,
            stop_loss_bps: self.stop_loss_bps,
            take_profit_trailing: self.take_profit_trailing,
            take_profit_trailing_period: self.take_profit_trailing_period,
            take_profit_trailing_tolerance_bps: self.take_profit_trailing_tolerance_bps,
        }
    }
}

impl TradeConfig {
    /// The default settings.
    pub fn default() -> (r: TradeConfig)
        ensures
            r@ == (TradeConfigView {
                period_twap_in: 10,
                period_twap_out: 10,
                trading_costs_bps: 0,
                take_profit_bps: 50,
                stop_loss_bps: 50,
                take_profit_trailing: false,
                take_profit_trailing_period: 5,
                take_profit_trailing_tolerance_bps: 5,
            }),
    {
        TradeConfig {
            period_twap_in: 10,
            period_twap_out: 10,
            trading_costs_bps: 0,
            take_profit_bps: 50,
            stop_loss_bps: 50,
            take_profit_trailing: false,
            take_profit_trailing_period: 5,
            take_profit_trailing_tolerance_bps: 5,
        }
    }
}

} // verus!
