pub mod bars;
pub mod execution;
pub mod strategy;
pub mod strategy_case;
pub mod strategy_config;
pub mod trade_config;
