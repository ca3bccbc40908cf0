use ua_invest_tax::broker::ibkr::report::{
    CashTransaction, CashTransactions, FlexQueryResponse, FlexStatement, FlexStatements, Lot, Trades,
};
use ua_invest_tax::date::Date;
use ua_invest_tax::decimal::Dec;
use ua_invest_tax::tax::currency_convertor::{Currency, CurrencyConvertorError, CurrencyRate};
use ua_invest_tax::tax::ua::adapters::ibkr_adapter::IbkrAdapter;
use ua_invest_tax::tax::ua::broker_report_provider::{BrokerDividend, BrokerReport, BrokerTrade};
use ua_invest_tax::tax::ua::national_bank::{nbu_exchange_url, NationalBank, XmlCurrency, XmlExchange};
use ua_invest_tax::tax::ua::tax_policy::{default_tax_policy, TaxPolicy, TaxSpecByDate};
use ua_invest_tax::tax::ua::tax_report_generator::{
    PreservedRates, UaTax, UaTaxDividend, UaTaxReportGenerator, UaTaxReportGeneratorError,
};

fn d(year: i32, month: u32, day: u32) -> Date {
    Date { year, month, day }
}

fn dec(m: i64, s: u32) -> Dec {
    Dec::new(m, s)
}

fn lot(open: &str, trade: &str, cost: &str, pnl: &str, category: &str, description: &str, currency: &str) -> Lot {
    Lot {
        open_date_time: open.to_string(),
        trade_date: trade.to_string(),
        cost: cost.to_string(),
        fifo_pnl_realized: pnl.to_string(),
        asset_category: category.to_string(),
        description: description.to_string(),
        currency: currency.to_string(),
        ..Default::default()
    }
}

fn cash(settle: &str, amount: &str, currency: &str, description: &str) -> CashTransaction {
    CashTransaction {
        settle_date: settle.to_string(),
        amount: amount.to_string(),
        currency: currency.to_string(),
        description: description.to_string(),
        ..Default::default()
    }
}

fn statement(lots: Vec<Lot>, cash_transactions: Vec<CashTransaction>) -> FlexStatement {
    FlexStatement {
        trades: Trades { lots },
        cash_transactions: CashTransactions { cash_transactions },
        ..Default::default()
    }
}

fn response(statements: Vec<FlexStatement>) -> FlexQueryResponse {
    FlexQueryResponse {
        flex_statements: FlexStatements { flex_statement: statements },
        ..Default::default()
    }
}

#[test]
fn ibkr_lots_become_trades() {
    let report = response(vec![statement(
        vec![
            lot("20220103;093000", "20220310", "1000.555", "10.005", "STK", "APPLE INC", "USD"),
            lot("20210104", "20220311", "200", "-20.5", "ETF", "VANGUARD S&P 500", "EUR"),
            lot("20210105", "20220312", "50", "0", "BOND", "T-BILL", "USD"),
        ],
        vec![],
    )]);
    let adapter = IbkrAdapter::new(String::from("r.xml"));
    let broker = adapter.get_broker_report(&report);
    assert_eq!(broker.trades.len(), 3);
    let t = &broker.trades[0];
    assert_eq!(t.buy_date, d(2022, 1, 3));
    assert_eq!(t.sell_date, d(2022, 3, 10));
    assert_eq!(t.name, "Акції APPLE INC");
    // 1000.555 rounds to 1000.56; 10.005 rounds to 10.00 (tie to even), 1010.555 to 1010.56
    assert_eq!(t.buy_price, dec(100056, 2));
    assert_eq!(t.sell_price, dec(101056, 2));
    assert_eq!(t.currency, Currency::USD);
    let t = &broker.trades[1];
    assert_eq!(t.name, "ETF VANGUARD S&P 500");
    assert_eq!(t.buy_price, dec(200, 0));
    assert_eq!(t.sell_price, dec(1795, 1));
    assert_eq!(t.currency, Currency::EUR);
    assert_eq!(broker.trades[2].name, "T-BILL");
}

#[test]
fn ibkr_cash_transactions_become_dividends() {
    let report = response(vec![
        statement(vec![], vec![
            cash("20220401", "12.345", "USD", "AAPL dividend"),
            cash("20220401", "-1.85", "USD", "AAPL withholding tax"),
            cash("20220402", "-0.004", "USD", "rounds to zero"),
        ]),
        statement(vec![], vec![cash("20220501", "7", "EUR", "VWCE dividend"), cash("20220502", "-3", "XXX", "tax")]),
    ]);
    let adapter = IbkrAdapter::new(String::from("r.xml"));
    let broker = adapter.get_broker_report(&report);
    assert_eq!(broker.dividends.len(), 3);
    assert_eq!(broker.dividends[0].date, d(2022, 4, 1));
    assert_eq!(broker.dividends[0].amount, dec(1234, 2));
    assert_eq!(broker.dividends[0].name, "AAPL dividend");
    // -0.004 rounds to a zero without sign, which is kept
    assert_eq!(broker.dividends[1].amount, dec(0, 2));
    assert_eq!(broker.dividends[2].currency, Currency::EUR);
    assert_eq!(broker.dividends[2].amount, dec(7, 0));
}

#[test]
fn ibkr_unreadable_reports() {
    let adapter = IbkrAdapter::new(String::from("r.xml"));
    let bad_date = response(vec![statement(vec![lot("2022-01-03", "20220310", "1", "0", "STK", "A", "USD")], vec![])]);
    assert!(adapter.try_get_broker_report(&bad_date).is_none());
    let bad_currency = response(vec![statement(vec![lot("20220103", "20220310", "1", "0", "STK", "A", "GBP")], vec![])]);
    assert!(adapter.try_get_broker_report(&bad_currency).is_none());
    let bad_amount = response(vec![statement(vec![], vec![cash("20220401", "1,5", "USD", "x")])]);
    assert!(adapter.try_get_broker_report(&bad_amount).is_none());
    let good = response(vec![statement(vec![lot("20220103", "20220310", "1", "0", "STK", "A", "USD")], vec![])]);
    assert_eq!(adapter.try_get_broker_report(&good).unwrap().trades.len(), 1);
}

fn record(date: &str, rate: &str) -> XmlCurrency {
    XmlCurrency { exchangedate: date.to_string(), rate: rate.to_string(), cc: String::from("USD"), ..Default::default() }
}

#[test]
fn nbu_currency_pairs() {
    match NationalBank::check_currency_pair(Currency::USD, Currency::EUR) {
        Err(CurrencyConvertorError::CurrencyNotSupported { details }) => assert_eq!(details, "Currency not supported: USD"),
        other => panic!("unexpected {:?}", other),
    }
    match NationalBank::check_currency_pair(Currency::UAH, Currency::UAH) {
        Err(CurrencyConvertorError::CurrencyNotSupported { details }) => assert_eq!(details, "'From' currency can't be: UAH"),
        other => panic!("unexpected {:?}", other),
    }
    assert!(NationalBank::check_currency_pair(Currency::EUR, Currency::UAH).is_ok());
}

#[test]
fn nbu_rates_from_feed() {
    let nbu = NationalBank {};
    let feed = XmlExchange { currencies: vec![record("02.01.2022", "27.2782"), record("01.01.2022", "27.2782")] };
    let rates = nbu.convert_range(Currency::USD, Currency::UAH, Ok(feed)).unwrap();
    assert_eq!(rates.len(), 2);
    assert_eq!(rates[0].date, d(2022, 1, 2));
    assert_eq!(rates[1].date, d(2022, 1, 1));
    assert_eq!(rates[0].rate, dec(272782, 4));
    assert_eq!(rates[0].from, Currency::USD);
    assert_eq!(rates[0].to, Currency::UAH);
    let failed = nbu.convert_range(
        Currency::USD,
        Currency::UAH,
        Err(CurrencyConvertorError::CurrencyNotSupported { details: String::from("offline") }),
    );
    match failed {
        Err(CurrencyConvertorError::CurrencyNotSupported { details }) => assert_eq!(details, "offline"),
        other => panic!("unexpected {:?}", other),
    }
    let bad = XmlExchange { currencies: vec![record("2022-01-02", "27.2782")] };
    assert!(nbu.checked_convert_range(Currency::USD, Currency::UAH, Ok(bad)).is_none());
    let bad = XmlExchange { currencies: vec![record("2022-01-02", "27.2782")] };
    assert!(nbu.checked_convert_range(Currency::USD, Currency::EUR, Ok(bad)).unwrap().is_err());
}

#[test]
fn test_nbu_multiple_exchange_rates() {
    let nbu = NationalBank {};
    let feed = XmlExchange { currencies: vec![record("02.01.2022", "27.2782"), record("01.01.2022", "27.2782")] };
    let result = nbu.convert_range(Currency::USD, Currency::UAH, Ok(feed));
    assert!(result.is_ok());
    let exchange = result.unwrap();
    assert_eq!(exchange.len(), 2);
    assert_eq!(exchange[0].date, d(2022, 1, 2));
    assert_eq!(exchange[1].date, d(2022, 1, 1));
}

#[test]
fn nbu_exchange_address() {
    assert_eq!(
        nbu_exchange_url(Currency::USD, d(2022, 1, 1), d(2022, 1, 2)),
        "https://bank.gov.ua/NBU_Exchange/exchange_site?start=20220101&end=20220102&valcode=usd&sort=exchangedate&order=desc"
    );
    assert_eq!(
        nbu_exchange_url(Currency::EUR, d(2024, 12, 9), d(2025, 3, 10)),
        "https://bank.gov.ua/NBU_Exchange/exchange_site?start=20241209&end=20250310&valcode=eur&sort=exchangedate&order=desc"
    );
}

#[test]
fn nbu_single_date() {
    let nbu = NationalBank {};
    let rate = CurrencyRate { from: Currency::EUR, to: Currency::UAH, rate: dec(309172, 4), date: d(2022, 1, 2) };
    let one = nbu.convert(Currency::EUR, Currency::UAH, d(2022, 1, 2), Ok(vec![rate])).unwrap();
    assert_eq!(one, rate);
    match nbu.convert(Currency::EUR, Currency::UAH, d(2022, 1, 2), Ok(vec![rate, rate])) {
        Err(CurrencyConvertorError::CurrencyNotSupported { details }) => assert_eq!(
            details,
            "Error converting currency: from EUR to UAH on date 2022-01-02, len = 2"
        ),
        other => panic!("unexpected {:?}", other),
    }
    match nbu.convert(Currency::EUR, Currency::UAH, d(2022, 1, 2), Ok(vec![])) {
        Err(CurrencyConvertorError::CurrencyNotSupported { details }) => assert!(details.ends_with("len = 0")),
        other => panic!("unexpected {:?}", other),
    }
}

fn usd_rates() -> PreservedRates {
    let mut rates = PreservedRates::new();
    rates.insert(Currency::USD, vec![
        CurrencyRate { from: Currency::USD, to: Currency::UAH, rate: dec(365686, 4), date: d(2024, 6, 3) },
        CurrencyRate { from: Currency::USD, to: Currency::UAH, rate: dec(400000, 4), date: d(2025, 2, 3) },
        CurrencyRate { from: Currency::USD, to: Currency::UAH, rate: dec(41, 0), date: d(2025, 3, 3) },
    ]);
    rates
}

fn trade(buy: Date, sell: Date, buy_price: Dec, sell_price: Dec) -> BrokerTrade {
    BrokerTrade { buy_date: buy, sell_date: sell, name: String::from("Акції X"), buy_price, sell_price, currency: Currency::USD }
}

#[test]
fn tax_policy_periods() {
    let g = UaTaxReportGenerator::new(default_tax_policy());
    let p = g.tax_policy_by_date(d(2022, 5, 5)).unwrap();
    assert_eq!(p.start_date, d(2020, 1, 1));
    assert_eq!(p.military_tax, dec(15, 3));
    assert_eq!(p.personal_income_tax, dec(18, 2));
    // the 2020 period ends on 2024-12-31; the one of 2025 has no end
    let p = g.tax_policy_by_date(d(2024, 12, 31)).unwrap();
    assert_eq!(p.military_tax, dec(15, 3));
    for date in [d(2025, 1, 1), d(2025, 3, 1), d(2025, 6, 1)] {
        let p = g.tax_policy_by_date(date).unwrap();
        assert_eq!(p.start_date, d(2025, 1, 1));
        assert_eq!(p.end_date, None);
        assert_eq!(p.personal_income_tax, dec(18, 2));
        assert_eq!(p.military_tax, dec(5, 2));
    }
    assert!(matches!(g.tax_policy_by_date(d(2019, 12, 31)), Err(UaTaxReportGeneratorError::TaxPolicyError)));
}

fn period(start: Date, end: Option<Date>, military: Dec) -> TaxSpecByDate {
    TaxSpecByDate { personal_income_tax: dec(18, 2), military_tax: military, start_date: start, end_date: end }
}

#[test]
fn tax_policy_gaps_and_open_periods() {
    // a gap between an ended period and the next one
    let g = UaTaxReportGenerator::new(TaxPolicy {
        sub_policies: vec![
            period(d(2020, 1, 1), Some(d(2020, 6, 30)), dec(1, 2)),
            period(d(2021, 1, 1), None, dec(2, 2)),
        ],
    });
    assert_eq!(g.tax_policy_by_date(d(2020, 6, 30)).unwrap().military_tax, dec(1, 2));
    assert!(matches!(g.tax_policy_by_date(d(2020, 9, 1)), Err(UaTaxReportGeneratorError::TaxPolicyError)));
    assert_eq!(g.tax_policy_by_date(d(2021, 1, 1)).unwrap().military_tax, dec(2, 2));
    // an open period lasts until the next one starts
    let g = UaTaxReportGenerator::new(TaxPolicy {
        sub_policies: vec![period(d(2020, 1, 1), None, dec(1, 2)), period(d(2022, 1, 1), None, dec(2, 2))],
    });
    assert_eq!(g.tax_policy_by_date(d(2021, 12, 31)).unwrap().military_tax, dec(1, 2));
    assert_eq!(g.tax_policy_by_date(d(2023, 1, 1)).unwrap().military_tax, dec(2, 2));
    assert!(g.period_covers_date(&period(d(2020, 1, 1), None, dec(1, 2)), d(2021, 6, 1)));
    assert!(!g.period_covers_date(&period(d(2020, 1, 1), None, dec(1, 2)), d(2022, 6, 1)));
}

#[test]
fn report_dates_range() {
    let g = UaTaxReportGenerator::new(default_tax_policy());
    let report = BrokerReport {
        trades: vec![trade(d(2024, 6, 3), d(2025, 2, 3), dec(100, 0), dec(110, 0))],
        dividends: vec![BrokerDividend { date: d(2025, 3, 3), name: String::new(), amount: dec(5, 0), currency: Currency::USD }],
    };
    assert_eq!(g.get_total_range_by_report(&report).unwrap(), (d(2024, 6, 3), d(2025, 3, 3)));
    let empty = BrokerReport { trades: vec![], dividends: vec![] };
    match g.get_total_range_by_report(&empty) {
        Err(UaTaxReportGeneratorError::BrokerReportDatesRandeError(m)) => assert_eq!(m, "Could not get earliest date"),
        other => panic!("unexpected {:?}", other),
    }
    assert_eq!(UaTaxReportGenerator::currencies_of_trades(&report), vec![Currency::USD]);
}

#[test]
fn conversion_to_hryvnias() {
    let g = UaTaxReportGenerator::new(default_tax_policy());
    let rates = usd_rates();
    let uah = g.convert_to_uah_from_preserved_by_currency(dec(1050, 1), Currency::USD, d(2024, 6, 3), &rates).unwrap();
    assert_eq!(uah, dec(383970300, 5));
    match g.convert_to_uah_from_preserved_by_currency(dec(1, 0), Currency::USD, d(2024, 6, 4), &rates) {
        Err(UaTaxReportGeneratorError::CurrencyConvertorError(m)) => {
            assert_eq!(m, "Could not find rate for currency USD at date 2024-06-04")
        }
        other => panic!("unexpected {:?}", other),
    }
    match g.convert_to_uah_from_preserved_by_currency(dec(1, 0), Currency::EUR, d(2024, 6, 3), &rates) {
        Err(UaTaxReportGeneratorError::CurrencyConvertorError(m)) => assert_eq!(m, "Could not get preserved rates"),
        other => panic!("unexpected {:?}", other),
    }
}

#[test]
fn full_report() {
    let g = UaTaxReportGenerator::new(default_tax_policy());
    let rates = usd_rates();
    let report = BrokerReport {
        trades: vec![trade(d(2024, 6, 3), d(2025, 2, 3), dec(10050, 2), dec(12000, 2))],
        dividends: vec![BrokerDividend { date: d(2025, 3, 3), name: String::from("div"), amount: dec(1005, 2), currency: Currency::USD }],
    };
    assert!(g.tax_computation_fits_check(&report, &rates));
    let r = g.get_unformal_tax_report(&report, &rates).unwrap();
    let line = &r.investment_ops.trades[0];
    // 100.50 * 36.5686 = 3675.14430 -> 3675.14; 120.00 * 40.0000 = 4800.00
    assert_eq!(line.buy_price_uah, dec(367514, 2));
    assert_eq!(line.sell_price_uah, dec(480000, 2));
    assert_eq!(line.fin_result_uah, dec(112486, 2));
    assert_eq!(line.name, "Акції X");
    assert_eq!(r.investment_ops.total_fin_result, dec(112486, 2));
    // sold 2025-02-03: the 2025 period applies (18%, 5%)
    // 1124.86 * 0.18 = 202.4748 -> 202.47; 1124.86 * 0.05 = 56.243 -> 56.24
    assert_eq!(r.investment_ops.total_tax.personal_income_tax, dec(20247, 2));
    assert_eq!(r.investment_ops.total_tax.military_tax, dec(5624, 2));
    // 10.05 * 41 = 412.05
    assert_eq!(r.dividend_ops.income_total, dec(41205, 2));
    assert_eq!(r.dividend_ops.total_tax.personal_income_tax, dec(7417, 2));
    // 412.05 * 0.05 = 20.6025 -> 20.60
    assert_eq!(r.dividend_ops.total_tax.military_tax, dec(2060, 2));
    assert_eq!(r.dividend_ops.to_string(), "Income(412.05), Tax(94.77)");
}

#[test]
fn report_stops_on_missing_rate() {
    let g = UaTaxReportGenerator::new(default_tax_policy());
    let rates = usd_rates();
    let report = BrokerReport {
        trades: vec![trade(d(2024, 6, 3), d(2025, 2, 4), dec(1, 0), dec(2, 0))],
        dividends: vec![],
    };
    match g.get_unformal_tax_report(&report, &rates) {
        Err(UaTaxReportGeneratorError::CurrencyConvertorError(m)) => {
            assert_eq!(m, "Could not find rate for currency USD at date 2025-02-04")
        }
        other => panic!("unexpected {:?}", other),
    }
    let empty = BrokerReport { trades: vec![], dividends: vec![] };
    assert!(matches!(
        g.get_unformal_tax_report(&empty, &rates),
        Err(UaTaxReportGeneratorError::BrokerReportDatesRandeError(_))
    ));
}

#[test]
fn losses_reduce_the_tax() {
    let g = UaTaxReportGenerator::new(default_tax_policy());
    let rates = usd_rates();
    let report = BrokerReport {
        trades: vec![
            trade(d(2024, 6, 3), d(2025, 2, 3), dec(100, 0), dec(90, 0)),
            trade(d(2024, 6, 3), d(2025, 3, 3), dec(100, 0), dec(150, 0)),
        ],
        dividends: vec![],
    };
    let r = g.get_unformal_tax_report(&report, &rates).unwrap();
    // (3600 - 3656.86) + (6150 - 3656.86) = 2436.28
    assert_eq!(r.investment_ops.trades[0].fin_result_uah, dec(-5686, 2));
    assert_eq!(r.investment_ops.total_fin_result, dec(243628, 2));
    // 2436.28 * 0.18 = 438.5304 -> 438.53
    assert_eq!(r.investment_ops.total_tax.personal_income_tax, dec(43853, 2));
}

#[test]
fn ua_tax_arithmetic() {
    let a = UaTax::new(dec(1005, 3), dec(15, 3));
    let b = UaTax::new(dec(1, 0), dec(2, 0));
    let s = a.add(b);
    assert_eq!(s.personal_income_tax, dec(2005, 3));
    assert_eq!(s.military_tax, dec(2015, 3));
    assert_eq!(s.total(), dec(4020, 3));
    // the total of the sum is the sum of the totals: 1.020 + 3 = 4.020
    assert_eq!(a.total(), dec(1020, 3));
    assert_eq!(b.total(), dec(3, 0));
    let r = s.round_dp(2);
    // 2.005 -> 2.00 (tie to even), 2.015 -> 2.02 (tie to even)
    assert_eq!(r.personal_income_tax, dec(200, 2));
    assert_eq!(r.military_tax, dec(202, 2));
    let div = UaTaxDividend { income_total: dec(1000, 2), total_tax: UaTax::new(dec(180, 2), dec(15, 2)) };
    assert_eq!(div.to_string(), "Income(10.00), Tax(1.95)");
}

#[test]
fn report_stops_before_any_period() {
    let g = UaTaxReportGenerator::new(default_tax_policy());
    let mut rates = PreservedRates::new();
    rates.insert(Currency::USD, vec![
        CurrencyRate { from: Currency::USD, to: Currency::UAH, rate: dec(27, 0), date: d(2019, 5, 6) },
        CurrencyRate { from: Currency::USD, to: Currency::UAH, rate: dec(28, 0), date: d(2019, 7, 8) },
    ]);
    let report = BrokerReport {
        trades: vec![trade(d(2019, 5, 6), d(2019, 7, 8), dec(1, 0), dec(2, 0))],
        dividends: vec![],
    };
    assert!(matches!(g.get_unformal_tax_report(&report, &rates), Err(UaTaxReportGeneratorError::TaxPolicyError)));
}

#[test]
fn dividend_in_a_currency_without_rates() {
    let g = UaTaxReportGenerator::new(default_tax_policy());
    let rates = usd_rates();
    let report = BrokerReport {
        trades: vec![trade(d(2024, 6, 3), d(2025, 2, 3), dec(1, 0), dec(2, 0))],
        dividends: vec![BrokerDividend { date: d(2025, 3, 3), name: String::new(), amount: dec(5, 0), currency: Currency::EUR }],
    };
    match g.get_unformal_tax_report(&report, &rates) {
        Err(UaTaxReportGeneratorError::CurrencyConvertorError(m)) => assert_eq!(m, "Could not get preserved rates"),
        other => panic!("unexpected {:?}", other),
    }
}

#[test]
fn fits_check_refuses_overflowing_products() {
    let g = UaTaxReportGenerator::new(default_tax_policy());
    let rates = usd_rates();
    // the largest whole amount a decimal holds, times 36.5686, overflows
    let huge = Dec { negative: false, magnitude: (1u128 << 96) - 1, scale: 0 };
    let report = BrokerReport {
        trades: vec![trade(d(2024, 6, 3), d(2025, 2, 3), huge, dec(2, 0))],
        dividends: vec![],
    };
    assert!(!g.tax_computation_fits_check(&report, &rates));
    // 28 digits after the point times a rate with 4: the product is rounded, not refused
    let report = BrokerReport {
        trades: vec![trade(d(2024, 6, 3), d(2025, 2, 3), dec(1, 28), dec(2, 0))],
        dividends: vec![],
    };
    assert!(g.tax_computation_fits_check(&report, &rates));
    let r = g.get_unformal_tax_report(&report, &rates).unwrap();
    assert_eq!(r.investment_ops.trades[0].buy_price_uah, dec(0, 2));
    let report = BrokerReport {
        trades: vec![trade(d(2024, 6, 3), d(2025, 2, 3), dec(1, 2), dec(2, 0))],
        dividends: vec![],
    };
    assert!(g.tax_computation_fits_check(&report, &rates));
}

#[test]
fn preserving_rates() {
    let g = UaTaxReportGenerator::new(default_tax_policy());
    let rate = CurrencyRate { from: Currency::EUR, to: Currency::UAH, rate: dec(44, 0), date: d(2025, 1, 2) };
    assert_eq!(g.preserve_convert_rate(Ok(vec![rate])).unwrap(), vec![rate]);
    match g.preserve_convert_rate(Err(CurrencyConvertorError::CurrencyNotSupported { details: String::from("x") })) {
        Err(UaTaxReportGeneratorError::CurrencyConvertorError(m)) => assert_eq!(m, "Error preserving currency rates"),
        other => panic!("unexpected {:?}", other),
    }
    let mut kept = PreservedRates::new();
    assert!(kept.get(Currency::EUR).is_none());
    kept.insert(Currency::EUR, vec![rate]);
    assert_eq!(kept.get(Currency::EUR).unwrap().len(), 1);
    assert!(kept.get(Currency::USD).is_none());
}
