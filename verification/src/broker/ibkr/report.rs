//! The IBKR Flex Query report, as plain text fields.
//!
//! Every field holds the text of the attribute of the same meaning in the
//! report's XML; a missing attribute or element reads as empty.
use vstd::prelude::*;

verus! {

#[derive(Debug, PartialEq, Default)]
pub struct FlexQueryResponse {
    pub query_name: String,
    pub type_str: String,
    pub flex_statements: FlexStatements,
}

#[derive(Debug, PartialEq, Default)]
pub struct FlexStatements {
    pub flex_statement: Vec<FlexStatement>,
}

#[derive(Debug, PartialEq, Default)]
pub struct FlexStatement {
    pub account_id: String,
    pub from_date: String,
    pub to_date: String,
    pub when_generated: String,
    pub trades: Trades,
    pub cash_transactions: CashTransactions,
}

#[derive(Debug, PartialEq, Default)]
pub struct Trades {
    pub lots: Vec<Lot>,
}

#[derive(Debug, PartialEq, Default)]
pub struct Lot {
    pub account_id: String,
    pub currency: String,
    pub fx_rate_to_base: String,
    pub asset_category: String,
    pub sub_category: String,
    pub symbol: String,
    pub description: String,
    pub security_id: String,
    pub security_id_type: String,
    pub listing_exchange: String,
    pub report_date: String,
    pub date_time: String,
    pub trade_date: String,
    pub exchange: String,
    pub quantity: String,
    pub trade_price: String,
    pub cost: String,
    pub fifo_pnl_realized: String,
    pub buy_sell: String,
    pub transaction_id: String,
    pub open_date_time: String,
    pub level_of_detail: String,
}

#[derive(Debug, PartialEq, Default)]
pub struct CashTransactions {
    pub cash_transactions: Vec<CashTransaction>,
}

#[derive(Debug, PartialEq, Default)]
pub struct CashTransaction {
    pub account_id: String,
    pub currency: String,
    pub asset_category: String,
    pub sub_category: String,
    pub symbol: String,
    pub description: String,
    pub security_id: String,
    pub security_id_type: String,
    pub listing_exchange: String,
    pub multiplier: String,
    pub date_time: String,
    pub settle_date: String,
    // negative for taxes, positive for dividends
    pub amount: String,
    pub transaction_type: String,
    pub transaction_id: String,
    pub report_date: String,
    pub level_of_detail: String,
}

} // verus!
