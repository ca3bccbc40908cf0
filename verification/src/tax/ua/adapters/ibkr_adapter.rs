//! The adapter from IBKR Flex Query reports to trades and dividends.
use vstd::prelude::*;
use vstd::string::*;
use super::broker_adapter::BrokerAdapter;
use crate::broker::common::broker_report_parser_factory::{
    broker_for_extension, detected_extension, BrokerType,
};
use crate::broker::common::report_parser::ReportParserError;
use crate::broker::ibkr::report::{CashTransaction, FlexQueryResponse, FlexStatement, Lot};
use crate::date::{naive_date_parse, parse_date};
use crate::decimal::{
    add_fits, add_sub_fits_check, dec_add, decimal_from_str_exact, parse_exact, round_dp,
    spec_add, spec_round_dp,
};
use crate::tax::currency_convertor::{currency_of_code, Currency};
use crate::decimal::Dec;
use crate::tax::ua::broker_report_provider::{
    BrokerDividend, BrokerDividendView, BrokerReport, BrokerTrade, BrokerTradeView,
};
use crate::text::{lemma_prefix_before_split, prefix_before, str_eq, take_before};

verus! {

pub struct IbkrAdapter {
    pub adapter: BrokerAdapter,
}

/// The format of the report's dates.
pub open spec fn ibkr_date_format() -> Seq<char> {
    "%Y%m%d"@
}

/// The name of a traded position: shares ("STK") are called "Акції", ETFs
/// "ETF", and that word goes before the description; other positions keep
/// their description.
pub open spec fn trade_name(category: Seq<char>, description: Seq<char>) -> Seq<char> {
    if category == "STK"@ {
        "Акції"@ + " "@ + description
    } else if category == "ETF"@ {
        "ETF"@ + " "@ + description
    } else {
        description
    }
}

/// A lot's dates, amounts and currency read, and its sale price computed
/// without overflow.
pub open spec fn lot_parses(l: Lot) -> bool {
    &&& naive_date_parse(prefix_before(l.open_date_time@, ';'), ibkr_date_format()) is Some
    &&& naive_date_parse(l.trade_date@, ibkr_date_format()) is Some
    &&& decimal_from_str_exact(l.cost@) is Some
    &&& decimal_from_str_exact(l.fifo_pnl_realized@) is Some
    &&& add_fits(
        decimal_from_str_exact(l.cost@).unwrap(),
        spec_round_dp(decimal_from_str_exact(l.fifo_pnl_realized@).unwrap(), 2),
    )
    &&& currency_of_code(l.currency@) is Some
}

/// The trade of a closed lot: bought on the date the position was opened
/// (the part of `openDateTime` before ';'), sold on the trade date, bought
/// for the cost and sold for the cost plus the realized profit, both
/// rounded to cents (the profit is rounded to cents before it is added).
pub open spec fn lot_trade(l: Lot) -> BrokerTradeView {
    let cost = decimal_from_str_exact(l.cost@).unwrap();
    let pnl = spec_round_dp(decimal_from_str_exact(l.fifo_pnl_realized@).unwrap(), 2);
    BrokerTradeView {
        buy_date: naive_date_parse(prefix_before(l.open_date_time@, ';'), ibkr_date_format()).unwrap(),
        sell_date: naive_date_parse(l.trade_date@, ibkr_date_format()).unwrap(),
        name: trade_name(l.asset_category@, l.description@),
        buy_price: spec_round_dp(cost, 2),
        sell_price: spec_round_dp(spec_add(cost, pnl), 2),
        currency: currency_of_code(l.currency@).unwrap(),
    }
}

/// A lot's trade takes each of its figures from its own fields alone: the
/// purchase date from the part of `openDateTime` before ';', the sale date
/// from `tradeDate`, the name from the asset category and description, the
/// purchase price from the cost, the sale price from the cost and the
/// realized profit, and the currency from the currency code.
pub proof fn lemma_lot_trade_fields(a: Lot, b: Lot)
    ensures
        prefix_before(a.open_date_time@, ';') == prefix_before(b.open_date_time@, ';')
            ==> lot_trade(a).buy_date == lot_trade(b).buy_date,
        a.trade_date@ == b.trade_date@ ==> lot_trade(a).sell_date == lot_trade(b).sell_date,
        a.asset_category@ == b.asset_category@ && a.description@ == b.description@ ==> lot_trade(
            a,
        ).name == lot_trade(b).name,
        a.cost@ == b.cost@ ==> lot_trade(a).buy_price == lot_trade(b).buy_price,
        a.cost@ == b.cost@ && a.fifo_pnl_realized@ == b.fifo_pnl_realized@ ==> lot_trade(
            a,
        ).sell_price == lot_trade(b).sell_price,
        a.currency@ == b.currency@ ==> lot_trade(a).currency == lot_trade(b).currency,
{
}

/// A lot whose `openDateTime` is a date, ';' and a time is bought on that
/// date, read as `YYYYMMDD`.
pub proof fn lemma_lot_buy_date(l: Lot, date: Seq<char>, time: Seq<char>)
    requires
        l.open_date_time@ == date + seq![';'] + time,
        forall|j: int| 0 <= j < date.len() ==> date[j] != ';',
    ensures
        lot_trade(l).buy_date == naive_date_parse(date, "%Y%m%d"@).unwrap(),
{
    lemma_prefix_before_split(date, ';', time);
}

/// A cash transaction's amount rounded to cents.
pub open spec fn cash_amount(c: CashTransaction) -> Dec {
    spec_round_dp(decimal_from_str_exact(c.amount@).unwrap(), 2)
}

/// A cash transaction's settle date and amount read, and the currency of a
/// non-negative one.
pub open spec fn cash_parses(c: CashTransaction) -> bool {
    &&& naive_date_parse(c.settle_date@, ibkr_date_format()) is Some
    &&& decimal_from_str_exact(c.amount@) is Some
    &&& !cash_amount(c).negative ==> currency_of_code(c.currency@) is Some
}

/// The dividend of a cash transaction: none for a negative amount (a tax
/// withheld); otherwise the amount, rounded to cents, on the settle date.
pub open spec fn cash_dividend(c: CashTransaction) -> Option<BrokerDividendView> {
    if cash_amount(c).negative {
        None
    } else {
        Some(
            BrokerDividendView {
                date: naive_date_parse(c.settle_date@, ibkr_date_format()).unwrap(),
                name: c.description@,
                amount: cash_amount(c),
                currency: currency_of_code(c.currency@).unwrap(),
            },
        )
    }
}

/// A cash transaction's dividend takes its date from the settle date alone,
/// its amount (and whether it is a dividend at all) from the amount alone,
/// its name from the description and its currency from the currency code;
/// a dividend is never negative.
pub proof fn lemma_cash_dividend_fields(a: CashTransaction, b: CashTransaction)
    ensures
        a.amount@ == b.amount@ ==> (cash_dividend(a) is None <==> cash_dividend(b) is None),
        cash_dividend(a) matches Some(x) ==> !x.amount.negative,
        cash_dividend(a) matches Some(x) ==> cash_dividend(b) matches Some(y) ==> {
            &&& a.settle_date@ == b.settle_date@ ==> x.date == y.date
            &&& a.amount@ == b.amount@ ==> x.amount == y.amount
            &&& a.description@ == b.description@ ==> x.name == y.name
            &&& a.currency@ == b.currency@ ==> x.currency == y.currency
        },
{
}

/// The dividends of a statement's cash transactions, in order.
pub open spec fn cash_dividends(cs: Seq<CashTransaction>) -> Seq<BrokerDividendView>
    decreases cs.len(),
{
    if cs.len() == 0 {
        Seq::empty()
    } else {
        let prev = cash_dividends(cs.drop_last());
        match cash_dividend(cs.last()) {
            Some(d) => prev.push(d),
            None => prev,
        }
    }
}

/// The trades of all statements, statement after statement.
pub open spec fn statements_trades(sts: Seq<FlexStatement>) -> Seq<BrokerTradeView>
    decreases sts.len(),
{
    if sts.len() == 0 {
        Seq::empty()
    } else {
        statements_trades(sts.drop_last()) + sts.last().trades.lots@.map_values(
            |l: Lot| lot_trade(l),
        )
    }
}

/// The dividends of all statements, statement after statement.
pub open spec fn statements_dividends(sts: Seq<FlexStatement>) -> Seq<BrokerDividendView>
    decreases sts.len(),
{
    if sts.len() == 0 {
        Seq::empty()
    } else {
        statements_dividends(sts.drop_last()) + cash_dividends(
            sts.last().cash_transactions.cash_transactions@,
        )
    }
}

proof fn lemma_cash_dividends_not_negative(cs: Seq<CashTransaction>)
    ensures
        forall|i: int|
            0 <= i < cash_dividends(cs).len() ==> !(#[trigger] cash_dividends(cs)[i]).amount.negative,
    decreases cs.len(),
{
    if cs.len() > 0 {
        lemma_cash_dividends_not_negative(cs.drop_last());
    }
}

/// Taxes withheld (cash transactions with a negative amount) are not
/// dividends: no dividend of a report is negative.
pub proof fn lemma_dividends_not_negative(sts: Seq<FlexStatement>)
    ensures
        forall|i: int|
            0 <= i < statements_dividends(sts).len() ==> !(#[trigger] statements_dividends(
                sts,
            )[i]).amount.negative,
    decreases sts.len(),
{
    if sts.len() > 0 {
        lemma_dividends_not_negative(sts.drop_last());
        let prev = statements_dividends(sts.drop_last());
        let last = sts.last().cash_transactions.cash_transactions@;
        lemma_cash_dividends_not_negative(last);
        assert forall|i: int| 0 <= i < statements_dividends(sts).len() implies !(
        #[trigger] statements_dividends(sts)[i]).amount.negative by {
            if i >= prev.len() {
                assert(statements_dividends(sts)[i] == cash_dividends(last)[i - prev.len()]);
            } else {
                assert(statements_dividends(sts)[i] == prev[i]);
            }
        }
    }
}

proof fn lemma_cash_dividends_in_cents(cs: Seq<CashTransaction>)
    ensures
        forall|i: int|
            0 <= i < cash_dividends(cs).len() ==> (#[trigger] cash_dividends(cs)[i]).amount.scale
                <= 2,
    decreases cs.len(),
{
    if cs.len() > 0 {
        lemma_cash_dividends_in_cents(cs.drop_last());
    }
}

/// Every price and amount that the adapter produces is in cents: at most
/// two digits after the point.
pub proof fn lemma_amounts_in_cents(sts: Seq<FlexStatement>)
    ensures
        forall|i: int|
            0 <= i < statements_trades(sts).len() ==> (#[trigger] statements_trades(
                sts,
            )[i]).buy_price.scale <= 2 && statements_trades(sts)[i].sell_price.scale <= 2,
        forall|i: int|
            0 <= i < statements_dividends(sts).len() ==> (#[trigger] statements_dividends(
                sts,
            )[i]).amount.scale <= 2,
    decreases sts.len(),
{
    if sts.len() > 0 {
        lemma_amounts_in_cents(sts.drop_last());
        let prev_t = statements_trades(sts.drop_last());
        let lots = sts.last().trades.lots@;
        let prev_d = statements_dividends(sts.drop_last());
        let cs = sts.last().cash_transactions.cash_transactions@;
        lemma_cash_dividends_in_cents(cs);
        assert forall|i: int| 0 <= i < statements_trades(sts).len() implies (
        #[trigger] statements_trades(sts)[i]).buy_price.scale <= 2 && statements_trades(
            sts,
        )[i].sell_price.scale <= 2 by {
            if i >= prev_t.len() {
                assert(statements_trades(sts)[i] == lot_trade(lots[i - prev_t.len()]));
            } else {
                assert(statements_trades(sts)[i] == prev_t[i]);
            }
        }
        assert forall|i: int| 0 <= i < statements_dividends(sts).len() implies (
        #[trigger] statements_dividends(sts)[i]).amount.scale <= 2 by {
            if i >= prev_d.len() {
                assert(statements_dividends(sts)[i] == cash_dividends(cs)[i - prev_d.len()]);
            } else {
                assert(statements_dividends(sts)[i] == prev_d[i]);
            }
        }
    }
}

/// The number of lots of some statements.
pub open spec fn lot_count(sts: Seq<FlexStatement>) -> nat
    decreases sts.len(),
{
    if sts.len() == 0 {
        0
    } else {
        lot_count(sts.drop_last()) + sts.last().trades.lots@.len()
    }
}

/// One trade per closed lot: a report has as many trades as its statements
/// have lots, and the trades of the first `k` statements come first.
pub proof fn lemma_trades_per_lot(sts: Seq<FlexStatement>, k: int)
    requires
        0 <= k <= sts.len(),
    ensures
        statements_trades(sts).len() == lot_count(sts),
        statements_trades(sts.take(k)).is_prefix_of(statements_trades(sts)),
    decreases sts.len(),
{
    if sts.len() > 0 {
        if k == sts.len() {
            assert(sts.take(k) =~= sts);
            lemma_trades_per_lot(sts.drop_last(), 0);
        } else {
            assert(sts.drop_last().take(k) =~= sts.take(k));
            lemma_trades_per_lot(sts.drop_last(), k);
        }
    } else {
        assert(sts.take(k) =~= sts);
    }
}

pub open spec fn statement_parses(st: FlexStatement) -> bool {
    &&& forall|j: int| 0 <= j < st.trades.lots@.len() ==> lot_parses(#[trigger] st.trades.lots@[j])
    &&& forall|j: int|
        0 <= j < st.cash_transactions.cash_transactions@.len() ==> cash_parses(
            #[trigger] st.cash_transactions.cash_transactions@[j],
        )
}

/// Every lot and cash transaction of the report reads.
pub open spec fn report_parses(r: &FlexQueryResponse) -> bool {
    forall|i: int|
        0 <= i < r.flex_statements.flex_statement@.len() ==> statement_parses(
            #[trigger] r.flex_statements.flex_statement@[i],
        )
}

impl IbkrAdapter {
    /// An adapter for an IBKR report file.
    pub fn new(input_file: String) -> (res: IbkrAdapter)
        ensures
            res.adapter.broker_type == BrokerType::IBKR,
            res.adapter.file_path@ == input_file@,
    {
        IbkrAdapter { adapter: BrokerAdapter::new(BrokerType::IBKR, input_file) }
    }

    /// An adapter for a report file whose broker is guessed from its
    /// extension; see `BrokerAdapter::from_file` for the errors.
    pub fn from_file(input_file: String) -> (res: Result<IbkrAdapter, String>)
        ensures
            match res {
                Ok(a) => a.adapter.file_path@ == input_file@ && a.adapter.broker_type
                    == BrokerType::IBKR && broker_for_extension(
                    detected_extension(input_file@),
                    Ok(BrokerType::IBKR),
                ),
                Err(msg) => exists|e: ReportParserError|
                    broker_for_extension(detected_extension(input_file@), Err(e)) && msg@
                        == "Failed to detect broker type: "@ + e.message(),
            },
    {
        match BrokerAdapter::from_file(input_file) {
            Ok(adapter) => {
                if *adapter.get_broker_type() != BrokerType::IBKR {
                    return Err(String::from_str("Expected IBKR broker type, but detected Unknown"));
                }
                Ok(IbkrAdapter { adapter })
            },
            Err(e) => Err(e),
        }
    }

    /// The trade of a closed lot (see `lot_trade`).
    pub fn trade_from_lot(lot: &Lot) -> (res: BrokerTrade)
        requires
            lot_parses(*lot),
        ensures
            res@ == lot_trade(*lot),
            res.buy_price.wf(),
            res.sell_price.wf(),
    {
        let opened = take_before(lot.open_date_time.as_str(), ';');
        let buy_date = parse_date(opened.as_str(), "%Y%m%d").unwrap();
        let sell_date = parse_date(lot.trade_date.as_str(), "%Y%m%d").unwrap();
        let cost = parse_exact(lot.cost.as_str()).unwrap();
        let fifo_pnl_realized = round_dp(parse_exact(lot.fifo_pnl_realized.as_str()).unwrap(), 2);
        let buy_price = round_dp(cost, 2);
        let sell_price = round_dp(dec_add(cost, fifo_pnl_realized), 2);
        let name = if str_eq(lot.asset_category.as_str(), "STK") {
            String::from_str("Акції").concat(" ").concat(lot.description.as_str())
        } else if str_eq(lot.asset_category.as_str(), "ETF") {
            String::from_str("ETF").concat(" ").concat(lot.description.as_str())
        } else {
            lot.description.clone()
        };
        let currency = match Currency::from_str(lot.currency.as_str()) {
            Ok(c) => c,
            Err(_) => Currency::UAH,
        };
        BrokerTrade { buy_date, sell_date, name, buy_price, sell_price, currency }
    }

    /// The dividend of a cash transaction, if it is one (see `cash_dividend`).
    pub fn dividend_from_cash(cash: &CashTransaction) -> (res: Option<BrokerDividend>)
        requires
            cash_parses(*cash),
        ensures
            match res {
                Some(d) => cash_dividend(*cash) == Some(d@) && d.amount.wf(),
                None => cash_dividend(*cash) is None,
            },
    {
        let date = parse_date(cash.settle_date.as_str(), "%Y%m%d").unwrap();
        let amount = round_dp(parse_exact(cash.amount.as_str()).unwrap(), 2);
        if amount.is_sign_negative() {
            return None;
        }
        let currency = match Currency::from_str(cash.currency.as_str()) {
            Ok(c) => c,
            Err(_) => Currency::UAH,
        };
        Some(BrokerDividend { date, name: cash.description.clone(), amount, currency })
    }

    /// The trades and dividends of an IBKR report, statement after
    /// statement. Reading the report file and parsing its XML are done by the
    /// caller. Every lot and cash transaction must read
    /// (`try_get_broker_report` tells).
    pub fn get_broker_report(&self, ibkr_report: &FlexQueryResponse) -> (res: BrokerReport)
        requires
            report_parses(ibkr_report),
        ensures
            res.trades@.map_values(|t: BrokerTrade| t@) == statements_trades(
                ibkr_report.flex_statements.flex_statement@,
            ),
            res.dividends@.map_values(|d: BrokerDividend| d@) == statements_dividends(
                ibkr_report.flex_statements.flex_statement@,
            ),
            res.wf(),
    {
        let statements = &ibkr_report.flex_statements.flex_statement;
        let ghost sts = statements@;
        let mut trades: Vec<BrokerTrade> = Vec::new();
        let mut dividends: Vec<BrokerDividend> = Vec::new();
        proof {
            assert(trades@.map_values(|t: BrokerTrade| t@) =~= Seq::<BrokerTradeView>::empty());
            assert(dividends@.map_values(|d: BrokerDividend| d@) =~= Seq::<
                BrokerDividendView,
            >::empty());
        }
        let n = statements.len();
        for i in 0..n
            invariant
                n == sts.len(),
                sts == statements@,
                report_parses(ibkr_report),
                statements == &ibkr_report.flex_statements.flex_statement,
                trades@.map_values(|t: BrokerTrade| t@) == statements_trades(sts.take(i as int)),
                dividends@.map_values(|d: BrokerDividend| d@) == statements_dividends(
                    sts.take(i as int),
                ),
                forall|k: int|
                    0 <= k < trades@.len() ==> (#[trigger] trades@[k]).buy_price.wf()
                        && trades@[k].sell_price.wf(),
                forall|k: int| 0 <= k < dividends@.len() ==> (#[trigger] dividends@[k]).amount.wf(),
        {
            let statement = &statements[i];
            assert(statement_parses(sts[i as int]));
            let lots = &statement.trades.lots;
            let ghost trades_before = trades@.map_values(|t: BrokerTrade| t@);
            let m = lots.len();
            for j in 0..m
                invariant
                    m == lots@.len(),
                    statement_parses(*statement),
                    lots == &statement.trades.lots,
                    trades@.map_values(|t: BrokerTrade| t@) == trades_before + lots@.take(
                        j as int,
                    ).map_values(|l: Lot| lot_trade(l)),
                    forall|k: int|
                        0 <= k < trades@.len() ==> (#[trigger] trades@[k]).buy_price.wf()
                            && trades@[k].sell_price.wf(),
            {
                let trade = Self::trade_from_lot(&lots[j]);
                let ghost prev = trades@;
                trades.push(trade);
                assert(trades@.map_values(|t: BrokerTrade| t@) =~= prev.map_values(
                    |t: BrokerTrade| t@,
                ).push(trade@));
                assert(lots@.take(j + 1).map_values(|l: Lot| lot_trade(l)) =~= lots@.take(
                    j as int,
                ).map_values(|l: Lot| lot_trade(l)).push(lot_trade(lots@[j as int])));
            }
            assert(lots@.take(m as int) =~= lots@);
            let cash = &statement.cash_transactions.cash_transactions;
            let ghost dividends_before = dividends@.map_values(|d: BrokerDividend| d@);
            let c = cash.len();
            for j in 0..c
                invariant
                    c == cash@.len(),
                    statement_parses(*statement),
                    cash == &statement.cash_transactions.cash_transactions,
                    dividends@.map_values(|d: BrokerDividend| d@) == dividends_before
                        + cash_dividends(cash@.take(j as int)),
                    forall|k: int|
                        0 <= k < dividends@.len() ==> (#[trigger] dividends@[k]).amount.wf(),
            {
                assert(cash@.take(j + 1).drop_last() =~= cash@.take(j as int));
                match Self::dividend_from_cash(&cash[j]) {
                    Some(d) => {
                        let ghost prev = dividends@;
                        dividends.push(d);
                        assert(dividends@.map_values(|x: BrokerDividend| x@) =~= prev.map_values(
                            |x: BrokerDividend| x@,
                        ).push(d@));
                    },
                    None => {},
                }
            }
            assert(cash@.take(c as int) =~= cash@);
            assert(sts.take(i + 1).drop_last() =~= sts.take(i as int));
            assert(sts.take(i + 1).last() == *statement);
        }
        assert(sts.take(n as int) =~= sts);
        BrokerReport { trades, dividends }
    }

    /// Whether a lot reads (see `lot_parses`).
    pub fn lot_is_readable(lot: &Lot) -> (res: bool)
        ensures
            res == lot_parses(*lot),
    {
        let opened = take_before(lot.open_date_time.as_str(), ';');
        if parse_date(opened.as_str(), "%Y%m%d").is_none() {
            return false;
        }
        if parse_date(lot.trade_date.as_str(), "%Y%m%d").is_none() {
            return false;
        }
        let cost = match parse_exact(lot.cost.as_str()) {
            Some(c) => c,
            None => {
                return false;
            },
        };
        let pnl = match parse_exact(lot.fifo_pnl_realized.as_str()) {
            Some(p) => p,
            None => {
                return false;
            },
        };
        if !add_sub_fits_check(cost, round_dp(pnl, 2), false) {
            return false;
        }
        Currency::from_str(lot.currency.as_str()).is_ok()
    }

    /// Whether a cash transaction reads (see `cash_parses`).
    pub fn cash_is_readable(cash: &CashTransaction) -> (res: bool)
        ensures
            res == cash_parses(*cash),
    {
        if parse_date(cash.settle_date.as_str(), "%Y%m%d").is_none() {
            return false;
        }
        let amount = match parse_exact(cash.amount.as_str()) {
            Some(a) => round_dp(a, 2),
            None => {
                return false;
            },
        };
        amount.is_sign_negative() || Currency::from_str(cash.currency.as_str()).is_ok()
    }

    /// Whether every lot and cash transaction of a report reads.
    pub fn report_is_readable(ibkr_report: &FlexQueryResponse) -> (res: bool)
        ensures
            res == report_parses(ibkr_report),
    {
        let statements = &ibkr_report.flex_statements.flex_statement;
        let n = statements.len();
        for i in 0..n
            invariant
                n == statements@.len(),
                statements == &ibkr_report.flex_statements.flex_statement,
                forall|k: int| 0 <= k < i ==> statement_parses(#[trigger] statements@[k]),
        {
            let statement = &statements[i];
            let lots = &statement.trades.lots;
            for j in 0..lots.len()
                invariant
                    i < n,
                    n == statements@.len(),
                    statements == &ibkr_report.flex_statements.flex_statement,
                    *statement == statements@[i as int],
                    lots == &statement.trades.lots,
                    forall|k: int| 0 <= k < j ==> lot_parses(#[trigger] lots@[k]),
            {
                if !Self::lot_is_readable(&lots[j]) {
                    assert(!statement_parses(statements@[i as int]));
                    return false;
                }
            }
            let cash = &statement.cash_transactions.cash_transactions;
            for j in 0..cash.len()
                invariant
                    i < n,
                    n == statements@.len(),
                    statements == &ibkr_report.flex_statements.flex_statement,
                    *statement == statements@[i as int],
                    forall|k: int| 0 <= k < lots@.len() ==> lot_parses(#[trigger] lots@[k]),
                    lots == &statement.trades.lots,
                    cash == &statement.cash_transactions.cash_transactions,
                    forall|k: int| 0 <= k < j ==> cash_parses(#[trigger] cash@[k]),
            {
                if !Self::cash_is_readable(&cash[j]) {
                    assert(!statement_parses(statements@[i as int]));
                    return false;
                }
            }
        }
        true
    }

    /// `get_broker_report` for any report: `None` where some lot or cash
    /// transaction does not read (where `get_broker_report` has no result).
    pub fn try_get_broker_report(&self, ibkr_report: &FlexQueryResponse) -> (res: Option<
        BrokerReport,
    >)
        ensures
            res is None <==> !report_parses(ibkr_report),
            res matches Some(r) ==> {
                &&& r.trades@.map_values(|t: BrokerTrade| t@) == statements_trades(
                    ibkr_report.flex_statements.flex_statement@,
                )
                &&& r.dividends@.map_values(|d: BrokerDividend| d@) == statements_dividends(
                    ibkr_report.flex_statements.flex_statement@,
                )
                &&& r.wf()
            },
    {
        if Self::report_is_readable(ibkr_report) {
            Some(self.get_broker_report(ibkr_report))
        } else {
            None
        }
    }
}

} // verus!
