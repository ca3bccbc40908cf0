//! Adapters from broker reports to the tax report's trades and dividends.
pub mod broker_adapter;
pub mod ibkr_adapter;
