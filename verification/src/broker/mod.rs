//! Broker statements: reading them and telling brokers apart.
pub mod common;
pub mod ibkr;
pub mod general_report_parser;
