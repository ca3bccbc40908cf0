//! What the tax report needs from a broker: trades and dividends.
use vstd::prelude::*;
use crate::date::Date;
use crate::decimal::Dec;
use crate::tax::currency_convertor::Currency;

verus! {

pub struct BrokerReport {
    pub trades: Vec<BrokerTrade>,
    pub dividends: Vec<BrokerDividend>,
}

/// A position bought on `buy_date` for `buy_price` and sold on `sell_date`
/// for `sell_price`, both in `currency`.
pub struct BrokerTrade {
    pub buy_date: Date,
    pub sell_date: Date,
    pub name: String,
    pub buy_price: Dec,
    pub sell_price: Dec,
    pub currency: Currency,
}

/// A dividend of `amount` in `currency`, paid on `date`.
pub struct BrokerDividend {
    pub date: Date,
    pub name: String,
    pub amount: Dec,
    pub currency: Currency,
}

/// A trade with its name as text.
pub struct BrokerTradeView {
    pub buy_date: Date,
    pub sell_date: Date,
    pub name: Seq<char>,
    pub buy_price: Dec,
    pub sell_price: Dec,
    pub currency: Currency,
}

/// A dividend with its name as text.
pub struct BrokerDividendView {
    pub date: Date,
    pub name: Seq<char>,
    pub amount: Dec,
    pub currency: Currency,
}

impl View for BrokerTrade {
    type V = BrokerTradeView;

    open spec fn view(&self) -> BrokerTradeView {
        BrokerTradeView {
            buy_date: self.buy_date,
            sell_date: self.sell_date,
            name: self.name@,
            buy_price: self.buy_price,
            sell_price: self.sell_price,
            currency: self.currency,
        }
    }
}

impl View for BrokerDividend {
    type V = BrokerDividendView;

    open spec fn view(&self) -> BrokerDividendView {
        BrokerDividendView {
            date: self.date,
            name: self.name@,
            amount: self.amount,
            currency: self.currency,
        }
    }
}

impl BrokerReport {
    /// Every amount in the report is a decimal that `rust_decimal` can hold.
    pub open spec fn wf(&self) -> bool {
        &&& forall|i: int|
            0 <= i < self.trades@.len() ==> (#[trigger] self.trades@[i]).buy_price.wf()
                && self.trades@[i].sell_price.wf()
        &&& forall|i: int|
            0 <= i < self.dividends@.len() ==> (#[trigger] self.dividends@[i]).amount.wf()
    }
}

} // verus!
