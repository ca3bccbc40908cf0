//! The model of the informal tax report: what each trade and dividend adds
//! to it, when it stops with an error, and when a decimal operation would
//! overflow; with the properties of the finished report.
use vstd::prelude::*;
use crate::date::Date;
use crate::decimal::{
    add_fits, mul_fits, spec_add, spec_mul, spec_round_dp, spec_sub, sub_fits, Dec,
};
use crate::tax::currency_convertor::{Currency, CurrencyRate};
use crate::tax::ua::broker_report_provider::{
    BrokerDividend, BrokerDividendView, BrokerReport, BrokerTrade, BrokerTradeView,
};
use crate::tax::ua::tax_policy::TaxSpecByDate;
use crate::tax::ua::tax_report_generator::{
    spec_tax_add, spec_tax_round_dp, tax_add_fits, PreservedRates, ReportErrorView,
    UaInvestmentTaxReport, UaTax, UaTradeReport, UaTradeReportView,
};

verus! {

// ---------------------------------------------------------------------------
// Dates of the report

/// The earliest of a sequence of dates (`None` for no date).
pub open spec fn min_date(s: Seq<Date>) -> Option<Date>
    decreases s.len(),
{
    if s.len() == 0 {
        None
    } else {
        match min_date(s.drop_last()) {
            None => Some(s.last()),
            Some(m) => Some(
                if s.last().precedes(m) {
                    s.last()
                } else {
                    m
                },
            ),
        }
    }
}

/// The latest of a sequence of dates (`None` for no date).
pub open spec fn max_date(s: Seq<Date>) -> Option<Date>
    decreases s.len(),
{
    if s.len() == 0 {
        None
    } else {
        match max_date(s.drop_last()) {
            None => Some(s.last()),
            Some(m) => Some(
                if m.precedes(s.last()) {
                    s.last()
                } else {
                    m
                },
            ),
        }
    }
}

/// The dates on which a report's amounts are converted: purchase dates,
/// sale dates and dividend dates.
pub open spec fn buy_dates(report: &BrokerReport) -> Seq<Date> {
    report.trades@.map_values(|t: BrokerTrade| t.buy_date)
}

pub open spec fn sell_dates(report: &BrokerReport) -> Seq<Date> {
    report.trades@.map_values(|t: BrokerTrade| t.sell_date)
}

pub open spec fn dividend_dates(report: &BrokerReport) -> Seq<Date> {
    report.dividends@.map_values(|d: BrokerDividend| d.date)
}

/// The earliest purchase or dividend date of a report.
pub open spec fn earliest_date(report: &BrokerReport) -> Option<Date> {
    min_date(buy_dates(report) + dividend_dates(report))
}

/// The latest sale or dividend date of a report.
pub open spec fn latest_date(report: &BrokerReport) -> Option<Date> {
    max_date(sell_dates(report) + dividend_dates(report))
}

pub proof fn lemma_min_date(s: Seq<Date>)
    ensures
        min_date(s) is None <==> s.len() == 0,
        min_date(s) matches Some(m) ==> s.contains(m) && forall|i: int|
            0 <= i < s.len() ==> m.not_after(#[trigger] s[i]),
    decreases s.len(),
{
    if s.len() > 0 {
        lemma_min_date(s.drop_last());
        let m = min_date(s).unwrap();
        if s.drop_last().len() > 0 {
            let k = choose|k: int| 0 <= k < s.drop_last().len() && s.drop_last()[k] == min_date(
                s.drop_last(),
            ).unwrap();
            assert(s[k] == s.drop_last()[k]);
        }
        assert(s[s.len() - 1] == s.last());
        assert forall|i: int| 0 <= i < s.len() implies m.not_after(#[trigger] s[i]) by {
            if i < s.len() - 1 {
                assert(s[i] == s.drop_last()[i]);
            }
        }
    }
}

pub proof fn lemma_max_date(s: Seq<Date>)
    ensures
        max_date(s) is None <==> s.len() == 0,
        max_date(s) matches Some(m) ==> s.contains(m) && forall|i: int|
            0 <= i < s.len() ==> (#[trigger] s[i]).not_after(m),
    decreases s.len(),
{
    if s.len() > 0 {
        lemma_max_date(s.drop_last());
        let m = max_date(s).unwrap();
        if s.drop_last().len() > 0 {
            let k = choose|k: int| 0 <= k < s.drop_last().len() && s.drop_last()[k] == max_date(
                s.drop_last(),
            ).unwrap();
            assert(s[k] == s.drop_last()[k]);
        }
        assert(s[s.len() - 1] == s.last());
        assert forall|i: int| 0 <= i < s.len() implies (#[trigger] s[i]).not_after(m) by {
            if i < s.len() - 1 {
                assert(s[i] == s.drop_last()[i]);
            }
        }
    }
}

// ---------------------------------------------------------------------------
// Choosing the tax rates of a date

/// Period `p` of the policy `ps` covers `date`: it has started by then, and
/// either its end date (inclusive) has not passed, or it has no end date and
/// no period that starts after it has started by then.
pub open spec fn period_covers(ps: Seq<TaxSpecByDate>, p: TaxSpecByDate, date: Date) -> bool {
    &&& p.start_date.not_after(date)
    &&& match p.end_date {
        Some(e) => date.not_after(e),
        None => forall|j: int|
            0 <= j < ps.len() ==> !(p.start_date.precedes((#[trigger] ps[j]).start_date)
                && ps[j].start_date.not_after(date)),
    }
}

/// The first period, from position `i` on, that covers `date`.
pub open spec fn covering_policy_from(ps: Seq<TaxSpecByDate>, date: Date, i: int) -> Option<
    TaxSpecByDate,
>
    decreases ps.len() - i,
{
    if i < 0 || i >= ps.len() {
        None
    } else if period_covers(ps, ps[i], date) {
        Some(ps[i])
    } else {
        covering_policy_from(ps, date, i + 1)
    }
}

/// The rates the report applies on `date`: those of the period that covers
/// it (the first listed, should several cover it); none when no period
/// covers it.
pub open spec fn policy_for_date(ps: Seq<TaxSpecByDate>, date: Date) -> Option<TaxSpecByDate> {
    covering_policy_from(ps, date, 0)
}

pub(crate) proof fn lemma_covering_policy_first(
    ps: Seq<TaxSpecByDate>,
    date: Date,
    j: int,
    i: int,
)
    requires
        0 <= j <= i < ps.len(),
        period_covers(ps, ps[i], date),
        forall|k: int| j <= k < i ==> !period_covers(ps, #[trigger] ps[k], date),
    ensures
        covering_policy_from(ps, date, j) == Some(ps[i]),
    decreases i - j,
{
    if j < i {
        lemma_covering_policy_first(ps, date, j + 1, i);
    }
}

pub(crate) proof fn lemma_covering_policy_none(ps: Seq<TaxSpecByDate>, date: Date, j: int)
    requires
        0 <= j <= ps.len(),
        forall|k: int| j <= k < ps.len() ==> !period_covers(ps, #[trigger] ps[k], date),
    ensures
        covering_policy_from(ps, date, j) is None,
    decreases ps.len() - j,
{
    if j < ps.len() {
        lemma_covering_policy_none(ps, date, j + 1);
    }
}

proof fn lemma_covering_policy_from(ps: Seq<TaxSpecByDate>, date: Date, j: int)
    requires
        0 <= j <= ps.len(),
    ensures
        covering_policy_from(ps, date, j) is None <==> forall|k: int|
            j <= k < ps.len() ==> !period_covers(ps, #[trigger] ps[k], date),
        covering_policy_from(ps, date, j) matches Some(p) ==> exists|k: int|
            j <= k < ps.len() && ps[k] == p && period_covers(ps, p, date),
    decreases ps.len() - j,
{
    if j < ps.len() {
        lemma_covering_policy_from(ps, date, j + 1);
    }
}

/// The chosen period is one of the policy's periods and covers `date`;
/// there is none exactly when no period covers `date`.
pub proof fn lemma_policy_for_date(ps: Seq<TaxSpecByDate>, date: Date)
    ensures
        policy_for_date(ps, date) is None <==> forall|i: int|
            0 <= i < ps.len() ==> !period_covers(ps, #[trigger] ps[i], date),
        policy_for_date(ps, date) matches Some(p) ==> ps.contains(p) && period_covers(ps, p, date),
{
    lemma_covering_policy_from(ps, date, 0);
}

/// The period chosen for a date has started by then and, if it has an end
/// date, that date has not passed; a period without an end date is never
/// chosen once another period that starts after it has started, whether or
/// not that later period has an end date.
pub proof fn lemma_chosen_period(ps: Seq<TaxSpecByDate>, date: Date)
    ensures
        policy_for_date(ps, date) matches Some(p) ==> {
            &&& p.start_date.not_after(date)
            &&& p.end_date matches Some(e) ==> date.not_after(e)
            &&& forall|j: int|
                0 <= j < ps.len() && p.start_date.precedes((#[trigger] ps[j]).start_date)
                    && ps[j].start_date.not_after(date) ==> p.end_date is Some
        },
{
    lemma_policy_for_date(ps, date);
}

/// The periods are listed in the order they start, and each one with an end
/// date ends before the next one starts.
pub open spec fn periods_in_order(ps: Seq<TaxSpecByDate>) -> bool {
    forall|i: int, j: int|
        0 <= i < j < ps.len() ==> {
            &&& (#[trigger] ps[i]).start_date.precedes((#[trigger] ps[j]).start_date)
            &&& ps[i].end_date matches Some(e) ==> e.precedes(ps[j].start_date)
        }
}

/// For periods in order: no period applies before the first one starts;
/// otherwise the rates of a date are those of the latest period that has
/// started by then, unless that period has ended before the date, in which
/// case none applies.
pub proof fn lemma_periods_in_order(ps: Seq<TaxSpecByDate>, date: Date, i: int)
    requires
        periods_in_order(ps),
    ensures
        (forall|k: int| 0 <= k < ps.len() ==> date.precedes(#[trigger] ps[k].start_date))
            ==> policy_for_date(ps, date) is None,
        0 <= i < ps.len() && ps[i].start_date.not_after(date) && (forall|k: int|
            0 <= k < ps.len() && (#[trigger] ps[k]).start_date.not_after(date) ==> k <= i)
            ==> policy_for_date(ps, date) == if ps[i].end_date matches Some(e) && e.precedes(
            date,
        ) {
            None::<TaxSpecByDate>
        } else {
            Some(ps[i])
        },
{
    lemma_policy_for_date(ps, date);
    if 0 <= i < ps.len() && ps[i].start_date.not_after(date) && (forall|k: int|
        0 <= k < ps.len() && (#[trigger] ps[k]).start_date.not_after(date) ==> k <= i) {
        assert forall|k: int| 0 <= k < i implies !period_covers(ps, #[trigger] ps[k], date) by {
            assert(ps[k].start_date.precedes(ps[i].start_date));
        }
        assert forall|k: int| i < k < ps.len() implies !period_covers(ps, #[trigger] ps[k], date) by {
            if ps[k].start_date.not_after(date) {
                assert(k <= i);
            }
        }
        if ps[i].end_date matches Some(e) && e.precedes(date) {
            assert(!period_covers(ps, ps[i], date));
            lemma_covering_policy_none(ps, date, 0);
        } else {
            assert forall|j: int| 0 <= j < ps.len() implies !(ps[i].start_date.precedes(
                (#[trigger] ps[j]).start_date,
            ) && ps[j].start_date.not_after(date)) by {
                if ps[i].start_date.precedes(ps[j].start_date) && ps[j].start_date.not_after(date) {
                    assert(j <= i);
                    if j < i {
                        assert(ps[j].start_date.precedes(ps[i].start_date));
                    }
                }
            }
            assert(period_covers(ps, ps[i], date));
            lemma_covering_policy_first(ps, date, 0, i);
        }
    }
    if forall|k: int| 0 <= k < ps.len() ==> date.precedes(#[trigger] ps[k].start_date) {
        assert forall|k: int| 0 <= k < ps.len() implies !period_covers(ps, #[trigger] ps[k], date) by {
            assert(date.precedes(ps[k].start_date));
        }
        lemma_covering_policy_none(ps, date, 0);
    }
}

// ---------------------------------------------------------------------------
// Converting an amount to hryvnias

/// The position of the first rate of `date` (the number of rates if none).
pub open spec fn rate_position(rates: Seq<CurrencyRate>, date: Date) -> nat
    decreases rates.len(),
{
    if rates.len() == 0 {
        0
    } else if rates[0].date == date {
        0
    } else {
        1 + rate_position(rates.drop_first(), date)
    }
}

pub(crate) proof fn lemma_rate_position_found(rates: Seq<CurrencyRate>, date: Date, i: int)
    requires
        0 <= i < rates.len(),
        rates[i].date == date,
        forall|j: int| 0 <= j < i ==> rates[j].date != date,
    ensures
        rate_position(rates, date) == i,
    decreases rates.len(),
{
    if i > 0 {
        assert forall|j: int| 0 <= j < i - 1 implies rates.drop_first()[j].date != date by {
            assert(rates.drop_first()[j] == rates[j + 1]);
        }
        lemma_rate_position_found(rates.drop_first(), date, i - 1);
    }
}

pub(crate) proof fn lemma_rate_position_missing(rates: Seq<CurrencyRate>, date: Date)
    requires
        forall|j: int| 0 <= j < rates.len() ==> rates[j].date != date,
    ensures
        rate_position(rates, date) == rates.len(),
    decreases rates.len(),
{
    if rates.len() > 0 {
        assert forall|j: int| 0 <= j < rates.drop_first().len() implies rates.drop_first()[j].date
            != date by {
            assert(rates.drop_first()[j] == rates[j + 1]);
        }
        lemma_rate_position_missing(rates.drop_first(), date);
    }
}

/// The message for an amount whose date has no kept rate.
pub open spec fn missing_rate_message(currency: Currency, date: Date) -> Seq<char> {
    "Could not find rate for currency "@ + currency.code() + " at date "@ + date.text()
}

/// An amount in `currency` on `date`, in hryvnias: multiplied by the first
/// kept rate of that date.
pub open spec fn conversion(
    amount: Dec,
    currency: Currency,
    date: Date,
    rates: &PreservedRates,
) -> Result<Dec, ReportErrorView> {
    match rates.rates_of(currency) {
        None => Err(ReportErrorView::CurrencyConvertorError("Could not get preserved rates"@)),
        Some(rs) => {
            let k = rate_position(rs, date);
            if k < rs.len() {
                Ok(spec_mul(amount, rs[k as int].rate))
            } else {
                Err(ReportErrorView::CurrencyConvertorError(missing_rate_message(currency, date)))
            }
        },
    }
}

/// An amount is converted at the first rate kept for its currency whose date
/// is the amount's date; with no rate of that date, or no rates kept for the
/// currency, it is not converted.
pub proof fn lemma_conversion_rate(amount: Dec, currency: Currency, date: Date, rates: &PreservedRates, i: int)
    ensures
        rates.rates_of(currency) is None ==> conversion(amount, currency, date, rates) is Err,
        rates.rates_of(currency) matches Some(rs) ==> {
            &&& (forall|j: int| 0 <= j < rs.len() ==> (#[trigger] rs[j]).date != date)
                ==> conversion(amount, currency, date, rates) is Err
            &&& (0 <= i < rs.len() && rs[i].date == date && forall|j: int|
                0 <= j < i ==> (#[trigger] rs[j]).date != date) ==> conversion(
                amount,
                currency,
                date,
                rates,
            ) == Ok::<Dec, ReportErrorView>(spec_mul(amount, rs[i].rate))
        },
{
    if let Some(rs) = rates.rates_of(currency) {
        if forall|j: int| 0 <= j < rs.len() ==> (#[trigger] rs[j]).date != date {
            lemma_rate_position_missing(rs, date);
        }
        if 0 <= i < rs.len() && rs[i].date == date && forall|j: int|
            0 <= j < i ==> (#[trigger] rs[j]).date != date {
            lemma_rate_position_found(rs, date, i);
        }
    }
}

/// The multiplication of a conversion does not overflow.
pub open spec fn conversion_fits(
    amount: Dec,
    currency: Currency,
    date: Date,
    rates: &PreservedRates,
) -> bool {
    match rates.rates_of(currency) {
        None => true,
        Some(rs) => {
            let k = rate_position(rs, date);
            k < rs.len() ==> mul_fits(amount, rs[k as int].rate)
        },
    }
}


// ---------------------------------------------------------------------------
// The report, trade by trade and dividend by dividend

/// Zero with scale 0, where every total starts.
pub open spec fn zero_dec() -> Dec {
    Dec { negative: false, magnitude: 0, scale: 0 }
}

pub open spec fn zero_tax() -> UaTax {
    UaTax { personal_income_tax: zero_dec(), military_tax: zero_dec() }
}

/// The taxes on an income at the rates of a period.
pub open spec fn taxes_on(income: Dec, p: TaxSpecByDate) -> UaTax {
    UaTax {
        personal_income_tax: spec_mul(income, p.personal_income_tax),
        military_tax: spec_mul(income, p.military_tax),
    }
}

/// The taxes on an income do not overflow.
pub open spec fn taxes_fit(income: Dec, p: TaxSpecByDate) -> bool {
    mul_fits(income, p.personal_income_tax) && mul_fits(income, p.military_tax)
}

/// The trade lines and totals after some trades.
pub struct TradesState {
    pub trades: Seq<UaTradeReportView>,
    pub total_fin: Dec,
    pub tax: UaTax,
}

pub open spec fn trades_start() -> TradesState {
    TradesState { trades: Seq::empty(), total_fin: zero_dec(), tax: zero_tax() }
}

/// A trade's purchase and sale prices in hryvnias, each rounded to kopiykas.
pub open spec fn trade_prices_uah(rates: &PreservedRates, t: BrokerTradeView) -> Result<
    (Dec, Dec),
    ReportErrorView,
> {
    match conversion(t.buy_price, t.currency, t.buy_date, rates) {
        Err(e) => Err(e),
        Ok(buy) => match conversion(t.sell_price, t.currency, t.sell_date, rates) {
            Err(e) => Err(e),
            Ok(sell) => Ok((spec_round_dp(buy, 2), spec_round_dp(sell, 2))),
        },
    }
}

/// One more trade: its line (the financial result is the sale price minus
/// the purchase price, in hryvnias), the result added to the total, and the
/// taxes on the result at the rates of the sale date added to the taxes.
pub open spec fn trade_step(
    ps: Seq<TaxSpecByDate>,
    rates: &PreservedRates,
    s: TradesState,
    t: BrokerTradeView,
) -> Result<TradesState, ReportErrorView> {
    match trade_prices_uah(rates, t) {
        Err(e) => Err(e),
        Ok((buy_uah, sell_uah)) => {
            let fin = spec_sub(sell_uah, buy_uah);
            match policy_for_date(ps, t.sell_date) {
                None => Err(ReportErrorView::TaxPolicyError),
                Some(p) => Ok(
                    TradesState {
                        trades: s.trades.push(
                            UaTradeReportView {
                                buy_date: t.buy_date,
                                sell_date: t.sell_date,
                                name: t.name,
                                buy_price_uah: buy_uah,
                                sell_price_uah: sell_uah,
                                fin_result_uah: fin,
                            },
                        ),
                        total_fin: spec_add(s.total_fin, fin),
                        tax: spec_tax_add(s.tax, taxes_on(fin, p)),
                    },
                ),
            }
        },
    }
}

/// No computation of a trade's step overflows, up to where it stops.
pub open spec fn trade_step_fits(
    ps: Seq<TaxSpecByDate>,
    rates: &PreservedRates,
    s: TradesState,
    t: BrokerTradeView,
) -> bool {
    &&& conversion_fits(t.buy_price, t.currency, t.buy_date, rates)
    &&& conversion(t.buy_price, t.currency, t.buy_date, rates) is Ok ==> conversion_fits(
        t.sell_price,
        t.currency,
        t.sell_date,
        rates,
    )
    &&& trade_prices_uah(rates, t) matches Ok((buy_uah, sell_uah)) ==> {
        let fin = spec_sub(sell_uah, buy_uah);
        &&& sub_fits(sell_uah, buy_uah)
        &&& add_fits(s.total_fin, fin)
        &&& policy_for_date(ps, t.sell_date) matches Some(p) ==> taxes_fit(fin, p) && tax_add_fits(
            s.tax,
            taxes_on(fin, p),
        )
    }
}

/// The trades taken in order; the first error stops the report.
pub open spec fn trades_fold(
    ps: Seq<TaxSpecByDate>,
    rates: &PreservedRates,
    ts: Seq<BrokerTradeView>,
) -> Result<TradesState, ReportErrorView>
    decreases ts.len(),
{
    if ts.len() == 0 {
        Ok(trades_start())
    } else {
        match trades_fold(ps, rates, ts.drop_last()) {
            Err(e) => Err(e),
            Ok(s) => trade_step(ps, rates, s, ts.last()),
        }
    }
}

pub open spec fn trades_fit(
    ps: Seq<TaxSpecByDate>,
    rates: &PreservedRates,
    ts: Seq<BrokerTradeView>,
) -> bool
    decreases ts.len(),
{
    if ts.len() == 0 {
        true
    } else {
        &&& trades_fit(ps, rates, ts.drop_last())
        &&& trades_fold(ps, rates, ts.drop_last()) matches Ok(s) ==> trade_step_fits(
            ps,
            rates,
            s,
            ts.last(),
        )
    }
}

/// The dividend income and its taxes after some dividends.
pub struct DividendsState {
    pub income: Dec,
    pub tax: UaTax,
}

pub open spec fn dividends_start() -> DividendsState {
    DividendsState { income: zero_dec(), tax: zero_tax() }
}

/// One more dividend: its amount in hryvnias, rounded to kopiykas, added to
/// the income, and the taxes on it at the rates of its date added to the
/// taxes.
pub open spec fn dividend_step(
    ps: Seq<TaxSpecByDate>,
    rates: &PreservedRates,
    s: DividendsState,
    d: BrokerDividendView,
) -> Result<DividendsState, ReportErrorView> {
    match conversion(d.amount, d.currency, d.date, rates) {
        Err(e) => Err(e),
        Ok(a) => {
            let amount_uah = spec_round_dp(a, 2);
            match policy_for_date(ps, d.date) {
                None => Err(ReportErrorView::TaxPolicyError),
                Some(p) => Ok(
                    DividendsState {
                        income: spec_add(s.income, amount_uah),
                        tax: spec_tax_add(s.tax, taxes_on(amount_uah, p)),
                    },
                ),
            }
        },
    }
}

pub open spec fn dividend_step_fits(
    ps: Seq<TaxSpecByDate>,
    rates: &PreservedRates,
    s: DividendsState,
    d: BrokerDividendView,
) -> bool {
    &&& conversion_fits(d.amount, d.currency, d.date, rates)
    &&& conversion(d.amount, d.currency, d.date, rates) matches Ok(a) ==> {
        let amount_uah = spec_round_dp(a, 2);
        &&& add_fits(s.income, amount_uah)
        &&& policy_for_date(ps, d.date) matches Some(p) ==> taxes_fit(amount_uah, p)
            && tax_add_fits(s.tax, taxes_on(amount_uah, p))
    }
}

pub open spec fn dividends_fold(
    ps: Seq<TaxSpecByDate>,
    rates: &PreservedRates,
    ds: Seq<BrokerDividendView>,
) -> Result<DividendsState, ReportErrorView>
    decreases ds.len(),
{
    if ds.len() == 0 {
        Ok(dividends_start())
    } else {
        match dividends_fold(ps, rates, ds.drop_last()) {
            Err(e) => Err(e),
            Ok(s) => dividend_step(ps, rates, s, ds.last()),
        }
    }
}

pub open spec fn dividends_fit(
    ps: Seq<TaxSpecByDate>,
    rates: &PreservedRates,
    ds: Seq<BrokerDividendView>,
) -> bool
    decreases ds.len(),
{
    if ds.len() == 0 {
        true
    } else {
        &&& dividends_fit(ps, rates, ds.drop_last())
        &&& dividends_fold(ps, rates, ds.drop_last()) matches Ok(s) ==> dividend_step_fits(
            ps,
            rates,
            s,
            ds.last(),
        )
    }
}

/// The figures of a finished report.
pub struct TaxComputation {
    pub trades: Seq<UaTradeReportView>,
    pub total_fin_result: Dec,
    pub investment_tax: UaTax,
    pub income_total: Dec,
    pub dividend_tax: UaTax,
}

/// The report: an error for a report with neither trades nor dividends;
/// otherwise the trades, then the dividends, the first error stopping it.
/// The trades' taxes, the dividends' taxes and the dividend income are
/// rounded to kopiykas once, at the end; the total financial result is the
/// sum of the (rounded) trade results.
pub open spec fn tax_computation(
    ps: Seq<TaxSpecByDate>,
    rates: &PreservedRates,
    ts: Seq<BrokerTradeView>,
    ds: Seq<BrokerDividendView>,
) -> Result<TaxComputation, ReportErrorView> {
    if ts.len() == 0 && ds.len() == 0 {
        Err(ReportErrorView::BrokerReportDatesRandeError("Could not get earliest date"@))
    } else {
        match trades_fold(ps, rates, ts) {
            Err(e) => Err(e),
            Ok(t) => match dividends_fold(ps, rates, ds) {
                Err(e) => Err(e),
                Ok(d) => Ok(
                    TaxComputation {
                        trades: t.trades,
                        total_fin_result: t.total_fin,
                        investment_tax: spec_tax_round_dp(t.tax, 2),
                        income_total: spec_round_dp(d.income, 2),
                        dividend_tax: spec_tax_round_dp(d.tax, 2),
                    },
                ),
            },
        }
    }
}

/// No computation of the report overflows, up to where it stops.
pub open spec fn tax_computation_fits(
    ps: Seq<TaxSpecByDate>,
    rates: &PreservedRates,
    ts: Seq<BrokerTradeView>,
    ds: Seq<BrokerDividendView>,
) -> bool {
    &&& trades_fit(ps, rates, ts)
    &&& trades_fold(ps, rates, ts) is Ok ==> dividends_fit(ps, rates, ds)
}

/// The report's trades and dividends as views.
pub open spec fn trade_views(report: &BrokerReport) -> Seq<BrokerTradeView> {
    report.trades@.map_values(|t: BrokerTrade| t@)
}

pub open spec fn dividend_views(report: &BrokerReport) -> Seq<BrokerDividendView> {
    report.dividends@.map_values(|d: BrokerDividend| d@)
}

/// A report holds the figures of a computation.
pub open spec fn report_holds(r: UaInvestmentTaxReport, c: TaxComputation) -> bool {
    &&& r.investment_ops.trades@.map_values(|l: UaTradeReport| l@) == c.trades
    &&& r.investment_ops.total_fin_result == c.total_fin_result
    &&& r.investment_ops.total_tax == c.investment_tax
    &&& r.dividend_ops.income_total == c.income_total
    &&& r.dividend_ops.total_tax == c.dividend_tax
}

pub(crate) proof fn lemma_trades_fold_stops(
    ps: Seq<TaxSpecByDate>,
    rates: &PreservedRates,
    ts: Seq<BrokerTradeView>,
    k: int,
)
    requires
        0 <= k <= ts.len(),
        trades_fold(ps, rates, ts.take(k)) is Err,
    ensures
        trades_fold(ps, rates, ts) == trades_fold(ps, rates, ts.take(k)),
    decreases ts.len(),
{
    if k == ts.len() {
        assert(ts.take(k) =~= ts);
    } else {
        assert(ts.drop_last().take(k) =~= ts.take(k));
        lemma_trades_fold_stops(ps, rates, ts.drop_last(), k);
    }
}

pub(crate) proof fn lemma_trades_fit_prefix(
    ps: Seq<TaxSpecByDate>,
    rates: &PreservedRates,
    ts: Seq<BrokerTradeView>,
    k: int,
)
    requires
        0 <= k <= ts.len(),
        trades_fit(ps, rates, ts),
    ensures
        trades_fit(ps, rates, ts.take(k)),
    decreases ts.len(),
{
    if k == ts.len() {
        assert(ts.take(k) =~= ts);
    } else {
        assert(ts.drop_last().take(k) =~= ts.take(k));
        lemma_trades_fit_prefix(ps, rates, ts.drop_last(), k);
    }
}

pub(crate) proof fn lemma_trades_fit_stops(
    ps: Seq<TaxSpecByDate>,
    rates: &PreservedRates,
    ts: Seq<BrokerTradeView>,
    k: int,
)
    requires
        0 <= k <= ts.len(),
        trades_fold(ps, rates, ts.take(k)) is Err,
    ensures
        trades_fit(ps, rates, ts) == trades_fit(ps, rates, ts.take(k)),
    decreases ts.len(),
{
    if k == ts.len() {
        assert(ts.take(k) =~= ts);
    } else {
        assert(ts.drop_last().take(k) =~= ts.take(k));
        lemma_trades_fit_stops(ps, rates, ts.drop_last(), k);
        lemma_trades_fold_stops(ps, rates, ts.drop_last(), k);
    }
}

pub(crate) proof fn lemma_dividends_fit_stops(
    ps: Seq<TaxSpecByDate>,
    rates: &PreservedRates,
    ds: Seq<BrokerDividendView>,
    k: int,
)
    requires
        0 <= k <= ds.len(),
        dividends_fold(ps, rates, ds.take(k)) is Err,
    ensures
        dividends_fit(ps, rates, ds) == dividends_fit(ps, rates, ds.take(k)),
    decreases ds.len(),
{
    if k == ds.len() {
        assert(ds.take(k) =~= ds);
    } else {
        assert(ds.drop_last().take(k) =~= ds.take(k));
        lemma_dividends_fit_stops(ps, rates, ds.drop_last(), k);
        lemma_dividends_fold_stops(ps, rates, ds.drop_last(), k);
    }
}

pub(crate) proof fn lemma_dividends_fold_stops(
    ps: Seq<TaxSpecByDate>,
    rates: &PreservedRates,
    ds: Seq<BrokerDividendView>,
    k: int,
)
    requires
        0 <= k <= ds.len(),
        dividends_fold(ps, rates, ds.take(k)) is Err,
    ensures
        dividends_fold(ps, rates, ds) == dividends_fold(ps, rates, ds.take(k)),
    decreases ds.len(),
{
    if k == ds.len() {
        assert(ds.take(k) =~= ds);
    } else {
        assert(ds.drop_last().take(k) =~= ds.take(k));
        lemma_dividends_fold_stops(ps, rates, ds.drop_last(), k);
    }
}

pub(crate) proof fn lemma_dividends_fit_prefix(
    ps: Seq<TaxSpecByDate>,
    rates: &PreservedRates,
    ds: Seq<BrokerDividendView>,
    k: int,
)
    requires
        0 <= k <= ds.len(),
        dividends_fit(ps, rates, ds),
    ensures
        dividends_fit(ps, rates, ds.take(k)),
    decreases ds.len(),
{
    if k == ds.len() {
        assert(ds.take(k) =~= ds);
    } else {
        assert(ds.drop_last().take(k) =~= ds.take(k));
        lemma_dividends_fit_prefix(ps, rates, ds.drop_last(), k);
    }
}

pub(crate) proof fn lemma_trade_step_needed(
    ps: Seq<TaxSpecByDate>,
    rates: &PreservedRates,
    ts: Seq<BrokerTradeView>,
    i: int,
)
    requires
        0 <= i < ts.len(),
        trades_fold(ps, rates, ts.take(i)) is Ok,
    ensures
        trades_fit(ps, rates, ts) ==> trades_fit(ps, rates, ts.take(i)) && trade_step_fits(
            ps,
            rates,
            trades_fold(ps, rates, ts.take(i))->Ok_0,
            ts[i],
        ),
        trades_fit(ps, rates, ts.take(i)) && trade_step_fits(
            ps,
            rates,
            trades_fold(ps, rates, ts.take(i))->Ok_0,
            ts[i],
        ) ==> trades_fit(ps, rates, ts.take(i + 1)),
{
    assert(ts.take(i + 1).drop_last() =~= ts.take(i));
    assert(ts.take(i + 1).last() == ts[i]);
    if trades_fit(ps, rates, ts) {
        lemma_trades_fit_prefix(ps, rates, ts, i + 1);
    }
}

pub(crate) proof fn lemma_dividend_step_needed(
    ps: Seq<TaxSpecByDate>,
    rates: &PreservedRates,
    ds: Seq<BrokerDividendView>,
    j: int,
)
    requires
        0 <= j < ds.len(),
        dividends_fold(ps, rates, ds.take(j)) is Ok,
    ensures
        dividends_fit(ps, rates, ds) ==> dividends_fit(ps, rates, ds.take(j)) && dividend_step_fits(
            ps,
            rates,
            dividends_fold(ps, rates, ds.take(j))->Ok_0,
            ds[j],
        ),
        dividends_fit(ps, rates, ds.take(j)) && dividend_step_fits(
            ps,
            rates,
            dividends_fold(ps, rates, ds.take(j))->Ok_0,
            ds[j],
        ) ==> dividends_fit(ps, rates, ds.take(j + 1)),
{
    assert(ds.take(j + 1).drop_last() =~= ds.take(j));
    assert(ds.take(j + 1).last() == ds[j]);
    if dividends_fit(ps, rates, ds) {
        lemma_dividends_fit_prefix(ps, rates, ds, j + 1);
    }
}

// ---------------------------------------------------------------------------
// Properties of the report

/// The sum of the financial results of some trade lines.
pub open spec fn sum_fin_results(lines: Seq<UaTradeReportView>) -> Dec
    decreases lines.len(),
{
    if lines.len() == 0 {
        zero_dec()
    } else {
        spec_add(sum_fin_results(lines.drop_last()), lines.last().fin_result_uah)
    }
}

/// Rounding to `dp` digits leaves at most `dp` digits after the point, and
/// rounding again changes nothing.
pub proof fn lemma_round_dp_digits(a: Dec, dp: nat)
    ensures
        spec_round_dp(a, dp).scale <= dp || spec_round_dp(a, dp) == a,
        a.scale <= dp ==> spec_round_dp(a, dp) == a,
        spec_round_dp(a, dp).scale <= dp ==> spec_round_dp(spec_round_dp(a, dp), dp)
            == spec_round_dp(a, dp),
{
}

/// A finished report has one line per trade, in the order of the trades,
/// with the trade's dates and name; each line's prices are in kopiykas (at
/// most two digits after the point) and its financial result is the sale
/// price minus the purchase price; the total financial result is the sum of
/// the lines' results.
pub proof fn lemma_trade_lines(
    ps: Seq<TaxSpecByDate>,
    rates: &PreservedRates,
    ts: Seq<BrokerTradeView>,
)
    ensures
        trades_fold(ps, rates, ts) matches Ok(s) ==> {
            &&& s.trades.len() == ts.len()
            &&& s.total_fin == sum_fin_results(s.trades)
            &&& forall|i: int|
                0 <= i < ts.len() ==> {
                    let line = #[trigger] s.trades[i];
                    &&& line.buy_date == ts[i].buy_date
                    &&& line.sell_date == ts[i].sell_date
                    &&& line.name == ts[i].name
                    &&& line.buy_price_uah.scale <= 2
                    &&& line.sell_price_uah.scale <= 2
                    &&& line.fin_result_uah == spec_sub(line.sell_price_uah, line.buy_price_uah)
                }
        },
    decreases ts.len(),
{
    if ts.len() > 0 {
        lemma_trade_lines(ps, rates, ts.drop_last());
        if let Ok(s) = trades_fold(ps, rates, ts) {
            let prev = trades_fold(ps, rates, ts.drop_last())->Ok_0;
            assert(s.trades.drop_last() =~= prev.trades);
            assert forall|i: int| 0 <= i < ts.len() - 1 implies s.trades[i] == prev.trades[i]
                && ts[i] == ts.drop_last()[i] by {}
        }
    }
}

/// The figures of a finished report: the trade lines as `lemma_trade_lines`
/// states; the taxes of the trades and of the dividends, and the dividend
/// income, are in kopiykas (at most two digits after the point).
pub proof fn lemma_report_figures(
    ps: Seq<TaxSpecByDate>,
    rates: &PreservedRates,
    ts: Seq<BrokerTradeView>,
    ds: Seq<BrokerDividendView>,
)
    ensures
        tax_computation(ps, rates, ts, ds) matches Ok(c) ==> {
            &&& c.trades.len() == ts.len()
            &&& c.total_fin_result == sum_fin_results(c.trades)
            &&& c.investment_tax.personal_income_tax.scale <= 2
            &&& c.investment_tax.military_tax.scale <= 2
            &&& c.dividend_tax.personal_income_tax.scale <= 2
            &&& c.dividend_tax.military_tax.scale <= 2
            &&& c.income_total.scale <= 2
        },
{
    lemma_trade_lines(ps, rates, ts);
}

/// The sum of some amounts, added one after the other from zero (each sum as
/// `rust_decimal` forms it).
pub open spec fn dec_sum(s: Seq<Dec>) -> Dec
    decreases s.len(),
{
    if s.len() == 0 {
        zero_dec()
    } else {
        spec_add(dec_sum(s.drop_last()), s.last())
    }
}

/// The rates of the period that covers `date`.
pub open spec fn rates_on(ps: Seq<TaxSpecByDate>, date: Date) -> TaxSpecByDate {
    policy_for_date(ps, date).unwrap()
}

/// An amount in hryvnias at the kept rate of its date, rounded to kopiykas.
pub open spec fn amount_in_uah(amount: Dec, currency: Currency, date: Date, rates: &PreservedRates) -> Dec {
    spec_round_dp(conversion(amount, currency, date, rates)->Ok_0, 2)
}

/// A trade's financial result: its sale price less its purchase price, both
/// in hryvnias.
pub open spec fn trade_result(rates: &PreservedRates, t: BrokerTradeView) -> Dec {
    spec_sub(
        amount_in_uah(t.sell_price, t.currency, t.sell_date, rates),
        amount_in_uah(t.buy_price, t.currency, t.buy_date, rates),
    )
}

/// The trades' financial results, in order.
pub open spec fn trade_results(rates: &PreservedRates, ts: Seq<BrokerTradeView>) -> Seq<Dec> {
    ts.map_values(|t: BrokerTradeView| trade_result(rates, t))
}

/// Each trade's result times the personal income tax rate of its sale date.
pub open spec fn trade_income_taxes(
    ps: Seq<TaxSpecByDate>,
    rates: &PreservedRates,
    ts: Seq<BrokerTradeView>,
) -> Seq<Dec> {
    ts.map_values(
        |t: BrokerTradeView|
            spec_mul(trade_result(rates, t), rates_on(ps, t.sell_date).personal_income_tax),
    )
}

/// Each trade's result times the military tax rate of its sale date.
pub open spec fn trade_military_taxes(
    ps: Seq<TaxSpecByDate>,
    rates: &PreservedRates,
    ts: Seq<BrokerTradeView>,
) -> Seq<Dec> {
    ts.map_values(
        |t: BrokerTradeView| spec_mul(trade_result(rates, t), rates_on(ps, t.sell_date).military_tax),
    )
}

/// The dividends' amounts in hryvnias, in order.
pub open spec fn dividend_amounts(rates: &PreservedRates, ds: Seq<BrokerDividendView>) -> Seq<Dec> {
    ds.map_values(|d: BrokerDividendView| amount_in_uah(d.amount, d.currency, d.date, rates))
}

/// Each dividend in hryvnias times the personal income tax rate of its date.
pub open spec fn dividend_income_taxes(
    ps: Seq<TaxSpecByDate>,
    rates: &PreservedRates,
    ds: Seq<BrokerDividendView>,
) -> Seq<Dec> {
    ds.map_values(
        |d: BrokerDividendView|
            spec_mul(
                amount_in_uah(d.amount, d.currency, d.date, rates),
                rates_on(ps, d.date).personal_income_tax,
            ),
    )
}

/// Each dividend in hryvnias times the military tax rate of its date.
pub open spec fn dividend_military_taxes(
    ps: Seq<TaxSpecByDate>,
    rates: &PreservedRates,
    ds: Seq<BrokerDividendView>,
) -> Seq<Dec> {
    ds.map_values(
        |d: BrokerDividendView|
            spec_mul(amount_in_uah(d.amount, d.currency, d.date, rates), rates_on(ps, d.date).military_tax),
    )
}

/// After the trades, the total financial result is the sum of every trade's
/// result, and each tax is the sum, over every trade, of its result times
/// that tax's rate in force on its sale date.
pub proof fn lemma_trades_sums(ps: Seq<TaxSpecByDate>, rates: &PreservedRates, ts: Seq<BrokerTradeView>)
    ensures
        trades_fold(ps, rates, ts) matches Ok(s) ==> {
            &&& s.total_fin == dec_sum(trade_results(rates, ts))
            &&& s.tax.personal_income_tax == dec_sum(trade_income_taxes(ps, rates, ts))
            &&& s.tax.military_tax == dec_sum(trade_military_taxes(ps, rates, ts))
        },
    decreases ts.len(),
{
    if ts.len() > 0 {
        let prev = ts.drop_last();
        lemma_trades_sums(ps, rates, prev);
        assert(trade_results(rates, prev) =~= trade_results(rates, ts).drop_last());
        assert(trade_income_taxes(ps, rates, prev) =~= trade_income_taxes(ps, rates, ts).drop_last());
        assert(trade_military_taxes(ps, rates, prev) =~= trade_military_taxes(ps, rates, ts).drop_last());
    }
}

/// A trade line shows the trade's purchase price at the rate of its
/// purchase date and its sale price at the rate of its sale date, in
/// hryvnias rounded to kopiykas, and the trade's result; the trade was sold
/// within a period of the policy.
pub open spec fn line_shows_trade(
    ps: Seq<TaxSpecByDate>,
    rates: &PreservedRates,
    line: UaTradeReportView,
    t: BrokerTradeView,
) -> bool {
    &&& conversion(t.buy_price, t.currency, t.buy_date, rates) is Ok
    &&& conversion(t.sell_price, t.currency, t.sell_date, rates) is Ok
    &&& line.buy_price_uah == amount_in_uah(t.buy_price, t.currency, t.buy_date, rates)
    &&& line.sell_price_uah == amount_in_uah(t.sell_price, t.currency, t.sell_date, rates)
    &&& line.fin_result_uah == trade_result(rates, t)
    &&& policy_for_date(ps, t.sell_date) is Some
}

/// Each line of the report shows its trade (see `line_shows_trade`).
pub proof fn lemma_trade_line_prices(
    ps: Seq<TaxSpecByDate>,
    rates: &PreservedRates,
    ts: Seq<BrokerTradeView>,
)
    ensures
        trades_fold(ps, rates, ts) matches Ok(s) ==> forall|i: int|
            0 <= i < ts.len() ==> line_shows_trade(ps, rates, #[trigger] s.trades[i], ts[i]),
    decreases ts.len(),
{
    if ts.len() > 0 {
        lemma_trade_line_prices(ps, rates, ts.drop_last());
        lemma_trade_lines(ps, rates, ts.drop_last());
        if let Ok(s) = trades_fold(ps, rates, ts) {
            let prev = trades_fold(ps, rates, ts.drop_last())->Ok_0;
            assert(s.trades == prev.trades.push(s.trades.last()));
            assert forall|i: int| 0 <= i < ts.len() implies line_shows_trade(
                ps,
                rates,
                #[trigger] s.trades[i],
                ts[i],
            ) by {
                if i < ts.len() - 1 {
                    assert(s.trades[i] == prev.trades[i]);
                    assert(ts[i] == ts.drop_last()[i]);
                } else {
                    assert(ts[i] == ts.last());
                }
            }
        }
    }
}

/// After the dividends, the income is the sum of every dividend in
/// hryvnias, and each tax is the sum, over every dividend, of its amount in
/// hryvnias times that tax's rate in force on its date.
pub proof fn lemma_dividends_sums(
    ps: Seq<TaxSpecByDate>,
    rates: &PreservedRates,
    ds: Seq<BrokerDividendView>,
)
    ensures
        dividends_fold(ps, rates, ds) matches Ok(s) ==> {
            &&& s.income == dec_sum(dividend_amounts(rates, ds))
            &&& s.tax.personal_income_tax == dec_sum(dividend_income_taxes(ps, rates, ds))
            &&& s.tax.military_tax == dec_sum(dividend_military_taxes(ps, rates, ds))
        },
    decreases ds.len(),
{
    if ds.len() > 0 {
        let prev = ds.drop_last();
        lemma_dividends_sums(ps, rates, prev);
        assert(dividend_amounts(rates, prev) =~= dividend_amounts(rates, ds).drop_last());
        assert(dividend_income_taxes(ps, rates, prev) =~= dividend_income_taxes(ps, rates, ds).drop_last());
        assert(dividend_military_taxes(ps, rates, prev) =~= dividend_military_taxes(ps, rates, ds).drop_last());
    }
}

/// The totals of a finished report: the total financial result is the sum
/// of all trades' results; the trades' taxes are the sums, over all trades,
/// of each result times the rate in force on its sale date, rounded to
/// kopiykas; the dividend income is the sum of all dividends in hryvnias,
/// and the dividends' taxes the sums of each amount times the rate in force
/// on its date, each rounded to kopiykas.
pub proof fn lemma_report_sums(
    ps: Seq<TaxSpecByDate>,
    rates: &PreservedRates,
    ts: Seq<BrokerTradeView>,
    ds: Seq<BrokerDividendView>,
)
    ensures
        tax_computation(ps, rates, ts, ds) matches Ok(c) ==> {
            &&& c.total_fin_result == dec_sum(trade_results(rates, ts))
            &&& c.investment_tax.personal_income_tax == spec_round_dp(
                dec_sum(trade_income_taxes(ps, rates, ts)),
                2,
            )
            &&& c.investment_tax.military_tax == spec_round_dp(
                dec_sum(trade_military_taxes(ps, rates, ts)),
                2,
            )
            &&& c.income_total == spec_round_dp(dec_sum(dividend_amounts(rates, ds)), 2)
            &&& c.dividend_tax.personal_income_tax == spec_round_dp(
                dec_sum(dividend_income_taxes(ps, rates, ds)),
                2,
            )
            &&& c.dividend_tax.military_tax == spec_round_dp(
                dec_sum(dividend_military_taxes(ps, rates, ds)),
                2,
            )
        },
{
    lemma_trades_sums(ps, rates, ts);
    lemma_dividends_sums(ps, rates, ds);
}

/// A report is refused for want of dates exactly when it has neither trades
/// nor dividends.
pub proof fn lemma_empty_report(
    ps: Seq<TaxSpecByDate>,
    rates: &PreservedRates,
    ts: Seq<BrokerTradeView>,
    ds: Seq<BrokerDividendView>,
)
    ensures
        (ts.len() == 0 && ds.len() == 0) <==> tax_computation(ps, rates, ts, ds) == Err::<
            TaxComputation,
            ReportErrorView,
        >(ReportErrorView::BrokerReportDatesRandeError("Could not get earliest date"@)),
{
    lemma_fold_errors(ps, rates, ts, ds);
}

/// The trades and the dividends stop a report only on a missing rate or
/// period, never for want of dates.
pub(crate) proof fn lemma_fold_errors(
    ps: Seq<TaxSpecByDate>,
    rates: &PreservedRates,
    ts: Seq<BrokerTradeView>,
    ds: Seq<BrokerDividendView>,
)
    ensures
        trades_fold(ps, rates, ts) matches Err(e) ==> !(e is BrokerReportDatesRandeError),
        dividends_fold(ps, rates, ds) matches Err(e) ==> !(e is BrokerReportDatesRandeError),
    decreases ts.len() + ds.len(),
{
    if ts.len() > 0 {
        lemma_fold_errors(ps, rates, ts.drop_last(), ds);
    }
    if ds.len() > 0 {
        lemma_fold_errors(ps, rates, ts, ds.drop_last());
    }
}

/// When no trade is sold before it is bought, every date on which the
/// report converts an amount (purchase, sale and dividend dates) lies
/// between the earliest and the latest date of the report: the rates kept
/// for that range cover the report.
pub proof fn lemma_range_covers_report(report: &BrokerReport)
    requires
        forall|i: int|
            0 <= i < report.trades@.len() ==> (#[trigger] report.trades@[i]).buy_date.not_after(
                report.trades@[i].sell_date,
            ),
    ensures
        earliest_date(report) is Some <==> latest_date(report) is Some,
        earliest_date(report) matches Some(e) ==> {
            let l = latest_date(report).unwrap();
            &&& forall|i: int|
                0 <= i < report.trades@.len() ==> {
                    &&& e.not_after((#[trigger] report.trades@[i]).buy_date)
                    &&& e.not_after(report.trades@[i].sell_date)
                    &&& report.trades@[i].buy_date.not_after(l)
                    &&& report.trades@[i].sell_date.not_after(l)
                }
            &&& forall|i: int|
                0 <= i < report.dividends@.len() ==> e.not_after(
                    (#[trigger] report.dividends@[i]).date,
                ) && report.dividends@[i].date.not_after(l)
        },
{
    let buys = buy_dates(report);
    let sells = sell_dates(report);
    let divs = dividend_dates(report);
    lemma_min_date(buys + divs);
    lemma_max_date(sells + divs);
    if earliest_date(report) is Some {
        let e = earliest_date(report).unwrap();
        let l = latest_date(report).unwrap();
        assert forall|i: int| 0 <= i < report.trades@.len() implies {
            &&& e.not_after((#[trigger] report.trades@[i]).buy_date)
            &&& e.not_after(report.trades@[i].sell_date)
            &&& report.trades@[i].buy_date.not_after(l)
            &&& report.trades@[i].sell_date.not_after(l)
        } by {
            assert((buys + divs)[i] == buys[i]);
            assert((sells + divs)[i] == sells[i]);
        }
        assert forall|i: int| 0 <= i < report.dividends@.len() implies e.not_after(
            (#[trigger] report.dividends@[i]).date,
        ) && report.dividends@[i].date.not_after(l) by {
            assert((buys + divs)[buys.len() + i] == divs[i]);
            assert((sells + divs)[sells.len() + i] == divs[i]);
        }
    }
}

} // verus!
