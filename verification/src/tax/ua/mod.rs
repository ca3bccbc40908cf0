//! Ukrainian personal income tax and military tax on investment income.
pub mod broker_report_provider;
pub mod national_bank;
pub mod tax_policy;
pub mod tax_report_generator;
pub mod tax_report_model;
pub mod adapters;
