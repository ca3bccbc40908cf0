//! Investment tax reporting for Ukrainian residents who trade through a broker.
//!
//! The library turns a broker statement (an IBKR Flex Query report) into
//! trades and dividends, converts their amounts to hryvnias with the rates of
//! the National Bank of Ukraine, and computes the personal income tax and the
//! military tax that are due on them.
pub mod decimal;
pub mod date;
pub mod text;
pub mod broker;
pub mod tax;
