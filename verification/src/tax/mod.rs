//! Taxes on investment income.
pub mod currency_convertor;
pub mod ua;
