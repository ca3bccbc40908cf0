//! The informal investment tax report: income converted to hryvnias at the
//! NBU rate of the day, and the personal income and military taxes on it.
//! What the report is stands in `tax_report_model`.
use vstd::prelude::*;
use vstd::string::*;
use crate::date::Date;
use crate::decimal::{
    add_exact, exact_add, lemma_exact_add_sub_units, add_fits, add_sub_fits_check, dec_add, dec_mul, dec_sub, display, decimal_display,
    mul_fits_check, round_dp, spec_add, spec_round_dp, Dec,
};
use crate::tax::currency_convertor::{Currency, CurrencyRate};
use crate::tax::ua::broker_report_provider::{BrokerDividend, BrokerReport, BrokerTrade};
use crate::tax::ua::tax_policy::{TaxPolicy, TaxSpecByDate};
use crate::tax::ua::tax_report_model::{
    buy_dates, conversion, conversion_fits, dividend_dates, dividend_step, dividend_step_fits,
    dividend_views, dividends_fit, dividends_fold, earliest_date, latest_date,
    lemma_dividend_step_needed, lemma_dividends_fit_prefix, lemma_dividends_fit_stops,
    lemma_dividends_fold_stops, lemma_max_date, lemma_min_date, lemma_policy_for_date,
    lemma_covering_policy_first, lemma_covering_policy_none, period_covers,
    lemma_rate_position_found, lemma_rate_position_missing, lemma_trade_step_needed,
    lemma_trades_fit_prefix, lemma_trades_fit_stops, lemma_trades_fold_stops, max_date, min_date,
    policy_for_date, report_holds, sell_dates, tax_computation, tax_computation_fits, trade_step,
    trade_step_fits, trade_views, trades_fit, trades_fold, DividendsState, TradesState,
};

verus! {

/// The two taxes on an income.
#[derive(Debug, Clone, Copy, PartialEq, Eq, Structural)]
pub struct UaTax {
    pub personal_income_tax: Dec,
    pub military_tax: Dec,
}

pub open spec fn spec_tax_add(a: UaTax, b: UaTax) -> UaTax {
    UaTax {
        personal_income_tax: spec_add(a.personal_income_tax, b.personal_income_tax),
        military_tax: spec_add(a.military_tax, b.military_tax),
    }
}

pub open spec fn tax_add_fits(a: UaTax, b: UaTax) -> bool {
    add_fits(a.personal_income_tax, b.personal_income_tax) && add_fits(
        a.military_tax,
        b.military_tax,
    )
}

/// Both sums are exact (see `add_exact`).
pub open spec fn tax_add_exact(a: UaTax, b: UaTax) -> bool {
    add_exact(a.personal_income_tax, b.personal_income_tax) && add_exact(
        a.military_tax,
        b.military_tax,
    )
}

/// The taxes added tax by tax, each sum exact.
pub open spec fn exact_tax_add(a: UaTax, b: UaTax) -> UaTax {
    UaTax {
        personal_income_tax: exact_add(a.personal_income_tax, b.personal_income_tax),
        military_tax: exact_add(a.military_tax, b.military_tax),
    }
}

/// The sum of both taxes, exact.
pub open spec fn exact_tax_total(a: UaTax) -> Dec {
    exact_add(a.personal_income_tax, a.military_tax)
}

/// Adding two taxes adds them tax by tax, and, where no sum is rounded, the
/// total of the result is worth the totals of both together.
pub proof fn lemma_tax_add_total(a: UaTax, b: UaTax)
    requires
        a.wf(),
        b.wf(),
        tax_add_exact(a, b),
        add_exact(a.personal_income_tax, a.military_tax),
        add_exact(b.personal_income_tax, b.military_tax),
        add_exact(exact_tax_add(a, b).personal_income_tax, exact_tax_add(a, b).military_tax),
    ensures
        exact_tax_add(a, b).personal_income_tax.units() == a.personal_income_tax.units()
            + b.personal_income_tax.units(),
        exact_tax_add(a, b).military_tax.units() == a.military_tax.units()
            + b.military_tax.units(),
        exact_tax_total(exact_tax_add(a, b)).units() == exact_tax_total(a).units()
            + exact_tax_total(b).units(),
{
    let s = exact_tax_add(a, b);
    lemma_exact_add_sub_units(a.personal_income_tax, b.personal_income_tax, false);
    lemma_exact_add_sub_units(a.military_tax, b.military_tax, false);
    lemma_exact_add_sub_units(a.personal_income_tax, a.military_tax, false);
    lemma_exact_add_sub_units(b.personal_income_tax, b.military_tax, false);
    lemma_exact_add_sub_units(s.personal_income_tax, s.military_tax, false);
}

pub open spec fn spec_tax_round_dp(a: UaTax, dp: nat) -> UaTax {
    UaTax {
        personal_income_tax: spec_round_dp(a.personal_income_tax, dp),
        military_tax: spec_round_dp(a.military_tax, dp),
    }
}

impl UaTax {
    pub open spec fn wf(self) -> bool {
        self.personal_income_tax.wf() && self.military_tax.wf()
    }

    /// Both taxes rounded to `dp` digits after the point (ties to even).
    pub fn round_dp(&self, dp: u32) -> (res: UaTax)
        requires
            self.wf(),
        ensures
            res == spec_tax_round_dp(*self, dp as nat),
            res.wf(),
    {
        UaTax {
            personal_income_tax: round_dp(self.personal_income_tax, dp),
            military_tax: round_dp(self.military_tax, dp),
        }
    }

    pub fn new(personal_income_tax: Dec, military_tax: Dec) -> (res: UaTax)
        ensures
            res == (UaTax { personal_income_tax, military_tax }),
    {
        UaTax { personal_income_tax, military_tax }
    }

    /// The sum of both taxes.
    pub fn total(&self) -> (res: Dec)
        requires
            self.wf(),
            add_fits(self.personal_income_tax, self.military_tax),
        ensures
            res == spec_add(self.personal_income_tax, self.military_tax),
            res.wf(),
            add_exact(self.personal_income_tax, self.military_tax) ==> res == exact_tax_total(
                *self,
            ),
    {
        dec_add(self.personal_income_tax, self.military_tax)
    }

    /// The taxes of two incomes together, tax by tax.
    pub fn add(self, other: UaTax) -> (res: UaTax)
        requires
            self.wf(),
            other.wf(),
            tax_add_fits(self, other),
        ensures
            res == spec_tax_add(self, other),
            res.wf(),
            tax_add_exact(self, other) ==> res == exact_tax_add(self, other),
    {
        UaTax {
            personal_income_tax: dec_add(self.personal_income_tax, other.personal_income_tax),
            military_tax: dec_add(self.military_tax, other.military_tax),
        }
    }
}

#[derive(Debug)]
pub struct UaInvestmentTaxReport {
    pub dividend_ops: UaTaxDividend,
    pub investment_ops: UaTaxInvestmentOps,
}

#[derive(Debug)]
pub struct UaTaxDividend {
    pub income_total: Dec,
    pub total_tax: UaTax,
}

impl UaTaxDividend {
    /// The summary `Income(<income>), Tax(<both taxes together>)`.
    pub open spec fn text(self) -> Seq<char> {
        "Income("@ + decimal_display(self.income_total) + "), Tax("@ + decimal_display(
            spec_add(self.total_tax.personal_income_tax, self.total_tax.military_tax),
        ) + ")"@
    }

    /// The summary `Income(<income>), Tax(<both taxes together>)`.
    pub fn to_string(&self) -> (res: String)
        requires
            self.income_total.wf(),
            self.total_tax.wf(),
            add_fits(self.total_tax.personal_income_tax, self.total_tax.military_tax),
        ensures
            res@ == self.text(),
    {
        let income = display(self.income_total);
        let tax = display(self.total_tax.total());
        String::from_str("Income(").concat(income.as_str()).concat("), Tax(").concat(
            tax.as_str(),
        ).concat(")")
    }
}

#[derive(Debug)]
pub struct UaTaxInvestmentOps {
    pub trades: Vec<UaTradeReport>,
    pub total_fin_result: Dec,
    pub total_tax: UaTax,
}

/// One trade with its prices in hryvnias and its financial result (sale
/// minus purchase).
#[derive(Debug)]
pub struct UaTradeReport {
    pub buy_date: Date,
    pub sell_date: Date,
    pub name: String,
    pub buy_price_uah: Dec,
    pub sell_price_uah: Dec,
    pub fin_result_uah: Dec,
}

/// A trade line of the report with its name as text.
pub struct UaTradeReportView {
    pub buy_date: Date,
    pub sell_date: Date,
    pub name: Seq<char>,
    pub buy_price_uah: Dec,
    pub sell_price_uah: Dec,
    pub fin_result_uah: Dec,
}

impl View for UaTradeReport {
    type V = UaTradeReportView;

    open spec fn view(&self) -> UaTradeReportView {
        UaTradeReportView {
            buy_date: self.buy_date,
            sell_date: self.sell_date,
            name: self.name@,
            buy_price_uah: self.buy_price_uah,
            sell_price_uah: self.sell_price_uah,
            fin_result_uah: self.fin_result_uah,
        }
    }
}

#[derive(Debug)]
pub enum UaTaxReportGeneratorError {
    BrokerError,
    BrokerReportDatesRandeError(String),
    TaxPolicyError,
    CurrencyConvertorError(String),
}

/// An error with its message as text.
pub enum ReportErrorView {
    BrokerError,
    BrokerReportDatesRandeError(Seq<char>),
    TaxPolicyError,
    CurrencyConvertorError(Seq<char>),
}

impl View for UaTaxReportGeneratorError {
    type V = ReportErrorView;

    open spec fn view(&self) -> ReportErrorView {
        match self {
            UaTaxReportGeneratorError::BrokerError => ReportErrorView::BrokerError,
            UaTaxReportGeneratorError::BrokerReportDatesRandeError(s) => {
                ReportErrorView::BrokerReportDatesRandeError(s@)
            },
            UaTaxReportGeneratorError::TaxPolicyError => ReportErrorView::TaxPolicyError,
            UaTaxReportGeneratorError::CurrencyConvertorError(s) => {
                ReportErrorView::CurrencyConvertorError(s@)
            },
        }
    }
}

/// The NBU rates kept for each currency, to convert every amount of a report.
pub struct PreservedRates {
    pub uah: Option<Vec<CurrencyRate>>,
    pub usd: Option<Vec<CurrencyRate>>,
    pub eur: Option<Vec<CurrencyRate>>,
}

impl PreservedRates {
    /// The rates kept for a currency, if any.
    pub open spec fn rates_of(&self, c: Currency) -> Option<Seq<CurrencyRate>> {
        let slot = match c {
            Currency::UAH => self.uah,
            Currency::USD => self.usd,
            Currency::EUR => self.eur,
        };
        match slot {
            Some(v) => Some(v@),
            None => None,
        }
    }

    /// Every kept rate is a decimal that `rust_decimal` can hold.
    pub open spec fn wf(&self) -> bool {
        forall|c: Currency, i: int|
            #![trigger self.rates_of(c), self.rates_of(c).unwrap()[i]]
            self.rates_of(c) is Some && 0 <= i < self.rates_of(c).unwrap().len()
                ==> self.rates_of(c).unwrap()[i].rate.wf()
    }

    /// No rates kept yet.
    pub fn new() -> (res: PreservedRates)
        ensures
            forall|c: Currency| res.rates_of(c) is None,
    {
        PreservedRates { uah: None, usd: None, eur: None }
    }

    /// Keeps `rates` for `currency`, in place of any kept before.
    pub fn insert(&mut self, currency: Currency, rates: Vec<CurrencyRate>)
        ensures
            final(self).rates_of(currency) == Some(rates@),
            forall|c: Currency| c != currency ==> final(self).rates_of(c) == old(self).rates_of(c),
    {
        match currency {
            Currency::UAH => self.uah = Some(rates),
            Currency::USD => self.usd = Some(rates),
            Currency::EUR => self.eur = Some(rates),
        }
    }

    /// The rates kept for a currency, if any.
    pub fn get(&self, currency: Currency) -> (res: Option<&Vec<CurrencyRate>>)
        ensures
            match res {
                Some(v) => self.rates_of(currency) == Some(v@),
                None => self.rates_of(currency) is None,
            },
    {
        match currency {
            Currency::UAH => self.uah.as_ref(),
            Currency::USD => self.usd.as_ref(),
            Currency::EUR => self.eur.as_ref(),
        }
    }
}

// ---------------------------------------------------------------------------
// The generator

/// The error of a conversion, as text.
pub open spec fn result_view<T>(r: Result<T, UaTaxReportGeneratorError>) -> Result<
    T,
    ReportErrorView,
> {
    match r {
        Ok(v) => Ok(v),
        Err(e) => Err(e@),
    }
}

pub struct UaTaxReportGenerator {
    pub tax_policy: TaxPolicy,
}

impl TaxPolicy {
    /// Every rate of the policy is a decimal that `rust_decimal` can hold.
    pub open spec fn wf(&self) -> bool {
        forall|i: int|
            0 <= i < self.sub_policies@.len() ==> (#[trigger] self.sub_policies@[i]).personal_income_tax.wf()
                && self.sub_policies@[i].military_tax.wf()
    }
}

impl UaTaxReportGenerator {
    /// A generator that applies `tax_policy`. The broker report and the
    /// exchange rates are handed to `get_unformal_tax_report`.
    pub fn new(tax_policy: TaxPolicy) -> (res: UaTaxReportGenerator)
        ensures
            res.tax_policy == tax_policy,
    {
        UaTaxReportGenerator { tax_policy }
    }

    /// The policy's periods, in order.
    pub open spec fn policies(&self) -> Seq<TaxSpecByDate> {
        self.tax_policy.sub_policies@
    }

    /// The earliest purchase or dividend date and the latest sale or
    /// dividend date of a report; an error for a report with neither trades
    /// nor dividends.
    pub fn get_total_range_by_report(&self, broker_report: &BrokerReport) -> (res: Result<
        (Date, Date),
        UaTaxReportGeneratorError,
    >)
        ensures
            match earliest_date(broker_report) {
                None => result_view(res) == Err::<(Date, Date), ReportErrorView>(
                    ReportErrorView::BrokerReportDatesRandeError("Could not get earliest date"@),
                ),
                Some(e) => res matches Ok((a, b)) && a == e && Some(b) == latest_date(
                    broker_report,
                ),
            },
    {
        let ghost buys = buy_dates(broker_report);
        let ghost sells = sell_dates(broker_report);
        let ghost divs = dividend_dates(broker_report);
        let mut earliest: Option<Date> = None;
        let mut latest: Option<Date> = None;
        let n = broker_report.trades.len();
        for i in 0..n
            invariant
                n == broker_report.trades@.len(),
                buys == buy_dates(broker_report),
                sells == sell_dates(broker_report),
                earliest == min_date(buys.take(i as int)),
                latest == max_date(sells.take(i as int)),
        {
            let t = &broker_report.trades[i];
            assert(buys.take(i + 1).drop_last() =~= buys.take(i as int));
            assert(sells.take(i + 1).drop_last() =~= sells.take(i as int));
            earliest = match earliest {
                None => Some(t.buy_date),
                Some(m) => Some(
                    if t.buy_date.is_before(&m) {
                        t.buy_date
                    } else {
                        m
                    },
                ),
            };
            latest = match latest {
                None => Some(t.sell_date),
                Some(m) => Some(
                    if m.is_before(&t.sell_date) {
                        t.sell_date
                    } else {
                        m
                    },
                ),
            };
        }
        assert(buys.take(n as int) =~= buys);
        assert(sells.take(n as int) =~= sells);
        let k = broker_report.dividends.len();
        for j in 0..k
            invariant
                k == broker_report.dividends@.len(),
                divs == dividend_dates(broker_report),
                earliest == min_date(buys + divs.take(j as int)),
                latest == max_date(sells + divs.take(j as int)),
        {
            let d = &broker_report.dividends[j];
            assert((buys + divs.take(j + 1)).drop_last() =~= buys + divs.take(j as int));
            assert((sells + divs.take(j + 1)).drop_last() =~= sells + divs.take(j as int));
            earliest = match earliest {
                None => Some(d.date),
                Some(m) => Some(
                    if d.date.is_before(&m) {
                        d.date
                    } else {
                        m
                    },
                ),
            };
            latest = match latest {
                None => Some(d.date),
                Some(m) => Some(
                    if m.is_before(&d.date) {
                        d.date
                    } else {
                        m
                    },
                ),
            };
        }
        assert(divs.take(k as int) =~= divs);
        match earliest {
            None => Err(
                UaTaxReportGeneratorError::BrokerReportDatesRandeError(
                    String::from_str("Could not get earliest date"),
                ),
            ),
            Some(e) => match latest {
                None => Err(
                    UaTaxReportGeneratorError::BrokerReportDatesRandeError(
                        String::from_str("Could not get latest date"),
                    ),
                ),
                Some(l) => {
                    proof {
                        lemma_min_date(buys + divs);
                        lemma_max_date(sells + divs);
                    }
                    Ok((e, l))
                },
            },
        }
    }

    /// The currencies the report's trades are in, each once.
    pub fn currencies_of_trades(broker_report: &BrokerReport) -> (res: Vec<Currency>)
        ensures
            forall|i: int, j: int| 0 <= i < j < res@.len() ==> res@[i] != res@[j],
            forall|c: Currency|
                res@.contains(c) <==> exists|i: int|
                    0 <= i < broker_report.trades@.len() && (#[trigger] broker_report.trades@[i]).currency
                        == c,
    {
        let mut res: Vec<Currency> = Vec::new();
        let n = broker_report.trades.len();
        for i in 0..n
            invariant
                n == broker_report.trades@.len(),
                forall|a: int, b: int| 0 <= a < b < res@.len() ==> res@[a] != res@[b],
                forall|c: Currency|
                    res@.contains(c) <==> exists|k: int|
                        0 <= k < i && (#[trigger] broker_report.trades@[k]).currency == c,
        {
            let c = broker_report.trades[i].currency;
            let ghost before = res@;
            let mut seen = false;
            for j in 0..res.len()
                invariant
                    res@ == before,
                    seen <==> exists|k: int| 0 <= k < j && res@[k] == c,
            {
                if res[j] == c {
                    seen = true;
                }
            }
            if !seen {
                res.push(c);
            }
            assert(seen ==> before.contains(c));
            assert forall|x: Currency|
                res@.contains(x) <==> exists|k: int|
                    0 <= k < i + 1 && (#[trigger] broker_report.trades@[k]).currency == x by {
                if res@.contains(x) {
                    if x == c {
                        assert(broker_report.trades@[i as int].currency == x);
                    } else {
                        let m = choose|m: int| 0 <= m < res@.len() && res@[m] == x;
                        assert(before[m] == x);
                        assert(before.contains(x));
                    }
                }
                if exists|k: int| 0 <= k < i + 1 && (#[trigger] broker_report.trades@[k]).currency
                    == x {
                    let k = choose|k: int|
                        0 <= k < i + 1 && (#[trigger] broker_report.trades@[k]).currency == x;
                    if k < i {
                        assert(before.contains(x));
                        let m = choose|m: int| 0 <= m < before.len() && before[m] == x;
                        assert(res@[m] == x);
                    } else if seen {
                        let m = choose|m: int| 0 <= m < before.len() && before[m] == c;
                        assert(res@[m] == x);
                    } else {
                        assert(res@[res@.len() - 1] == x);
                    }
                }
            }
        }
        res
    }
}

impl UaTaxReportGenerator {
    /// Whether period `p` covers `date` under this generator's policy (see
    /// `period_covers`).
    pub fn period_covers_date(&self, p: &TaxSpecByDate, date: Date) -> (res: bool)
        ensures
            res == period_covers(self.policies(), *p, date),
    {
        if date.is_before(&p.start_date) {
            return false;
        }
        match p.end_date {
            Some(e) => !e.is_before(&date),
            None => {
                let ghost ps = self.policies();
                let n = self.tax_policy.sub_policies.len();
                for j in 0..n
                    invariant
                        ps == self.policies(),
                        n == ps.len(),
                        p.end_date is None,
                        p.start_date.not_after(date),
                        forall|k: int|
                            0 <= k < j ==> !(p.start_date.precedes((#[trigger] ps[k]).start_date)
                                && ps[k].start_date.not_after(date)),
                {
                    let q = &self.tax_policy.sub_policies[j];
                    if p.start_date.is_before(&q.start_date) && !date.is_before(&q.start_date) {
                        assert(ps[j as int] == *q);
                        return false;
                    }
                }
                true
            },
        }
    }

    /// The rates that apply on `date`: those of the period that covers it
    /// (see `policy_for_date`); an error when no period covers it.
    pub fn tax_policy_by_date(&self, date: Date) -> (res: Result<
        TaxSpecByDate,
        UaTaxReportGeneratorError,
    >)
        ensures
            match policy_for_date(self.policies(), date) {
                None => res matches Err(UaTaxReportGeneratorError::TaxPolicyError),
                Some(p) => res matches Ok(q) && q == p,
            },
    {
        let ghost ps = self.policies();
        let n = self.tax_policy.sub_policies.len();
        for i in 0..n
            invariant
                ps == self.policies(),
                n == ps.len(),
                forall|k: int| 0 <= k < i ==> !period_covers(ps, #[trigger] ps[k], date),
        {
            let policy = self.tax_policy.sub_policies[i];
            if self.period_covers_date(&policy, date) {
                proof {
                    lemma_covering_policy_first(ps, date, 0, i as int);
                }
                return Ok(policy);
            }
        }
        proof {
            lemma_covering_policy_none(ps, date, 0);
        }
        Err(UaTaxReportGeneratorError::TaxPolicyError)
    }

    /// The rates kept for one currency, given what the NBU returned for the
    /// range: its error becomes a conversion error.
    pub fn preserve_convert_rate(
        &self,
        convert_rates: Result<Vec<CurrencyRate>, crate::tax::currency_convertor::CurrencyConvertorError>,
    ) -> (res: Result<Vec<CurrencyRate>, UaTaxReportGeneratorError>)
        ensures
            match convert_rates {
                Ok(rates) => res matches Ok(r) && r@ == rates@,
                Err(_) => result_view(res) == Err::<Vec<CurrencyRate>, ReportErrorView>(
                    ReportErrorView::CurrencyConvertorError("Error preserving currency rates"@),
                ),
            },
    {
        match convert_rates {
            Ok(rates) => Ok(rates),
            Err(_) => Err(
                UaTaxReportGeneratorError::CurrencyConvertorError(
                    String::from_str("Error preserving currency rates"),
                ),
            ),
        }
    }

    /// An amount in `currency` on `date`, in hryvnias (see `conversion`).
    pub fn convert_to_uah_from_preserved_by_currency(
        &self,
        amount: Dec,
        currency: Currency,
        date: Date,
        preserved_rates: &PreservedRates,
    ) -> (res: Result<Dec, UaTaxReportGeneratorError>)
        requires
            amount.wf(),
            preserved_rates.wf(),
            conversion_fits(amount, currency, date, preserved_rates),
        ensures
            result_view(res) == conversion(amount, currency, date, preserved_rates),
            res matches Ok(v) ==> v.wf(),
    {
        match preserved_rates.get(currency) {
            None => Err(
                UaTaxReportGeneratorError::CurrencyConvertorError(
                    String::from_str("Could not get preserved rates"),
                ),
            ),
            Some(rates) => {
                let ghost rs = rates@;
                let n = rates.len();
                let mut k: usize = 0;
                while k < n
                    invariant
                        n == rs.len(),
                        rs == rates@,
                        preserved_rates.rates_of(currency) == Some(rs),
                        preserved_rates.wf(),
                        amount.wf(),
                        conversion_fits(amount, currency, date, preserved_rates),
                        k <= n,
                        forall|j: int| 0 <= j < k ==> rs[j].date != date,
                    decreases n - k,
                {
                    if rates[k].date == date {
                        proof {
                            lemma_rate_position_found(rs, date, k as int);
                            assert(preserved_rates.rates_of(currency).unwrap()[k as int]
                                == rs[k as int]);
                            assert(rs[k as int].rate.wf());
                        }
                        return Ok(dec_mul(amount, rates[k].rate));
                    }
                    k = k + 1;
                }
                proof {
                    lemma_rate_position_missing(rs, date);
                }
                let details = String::from_str("Could not find rate for currency ").concat(
                    currency.to_string().as_str(),
                ).concat(" at date ").concat(date.to_string().as_str());
                Err(UaTaxReportGeneratorError::CurrencyConvertorError(details))
            },
        }
    }
}

impl UaTaxReportGenerator {
    /// The informal investment tax report of a broker report, converting
    /// with the NBU rates kept in `preserved_rates` (see `tax_computation`).
    /// No decimal operation of the report may overflow
    /// (`tax_computation_fits`, which `tax_computation_fits_check` tells).
    pub fn get_unformal_tax_report(
        &self,
        broker_report: &BrokerReport,
        preserved_rates: &PreservedRates,
    ) -> (res: Result<UaInvestmentTaxReport, UaTaxReportGeneratorError>)
        requires
            broker_report.wf(),
            preserved_rates.wf(),
            self.tax_policy.wf(),
            tax_computation_fits(
                self.policies(),
                preserved_rates,
                trade_views(broker_report),
                dividend_views(broker_report),
            ),
        ensures
            match tax_computation(
                self.policies(),
                preserved_rates,
                trade_views(broker_report),
                dividend_views(broker_report),
            ) {
                Err(e) => res matches Err(x) && x@ == e,
                Ok(c) => res matches Ok(r) && report_holds(r, c),
            },
    {
        let ghost ps = self.policies();
        let ghost ts = trade_views(broker_report);
        let ghost ds = dividend_views(broker_report);
        proof {
            lemma_min_date(buy_dates(broker_report) + dividend_dates(broker_report));
        }
        match self.get_total_range_by_report(broker_report) {
            Err(e) => {
                return Err(e);
            },
            Ok(_) => {},
        }
        let mut trades: Vec<UaTradeReport> = Vec::new();
        let mut total_fin_result = Dec::zero();
        let mut total_tax = UaTax::new(Dec::zero(), Dec::zero());
        let n = broker_report.trades.len();
        proof {
            assert(trades@.map_values(|l: UaTradeReport| l@) =~= Seq::<UaTradeReportView>::empty());
        }
        for i in 0..n
            invariant
                n == broker_report.trades@.len(),
                ts == trade_views(broker_report),
                ps == self.policies(),
                trades@.len() == i,
                broker_report.wf(),
                preserved_rates.wf(),
                self.tax_policy.wf(),
                trades_fit(ps, preserved_rates, ts),
                trades_fold(ps, preserved_rates, ts.take(i as int)) == Ok::<
                    TradesState,
                    ReportErrorView,
                >(
                    TradesState {
                        trades: trades@.map_values(|l: UaTradeReport| l@),
                        total_fin: total_fin_result,
                        tax: total_tax,
                    },
                ),
                total_fin_result.wf(),
                total_tax.wf(),
        {
            let trade = &broker_report.trades[i];
            proof {
                assert(ts.take(i + 1).drop_last() =~= ts.take(i as int));
                assert(ts.take(i + 1).last() == trade@);
                lemma_trades_fit_prefix(ps, preserved_rates, ts, i + 1);
                assert(trade.buy_price.wf() && trade.sell_price.wf());
            }
            let buy = match self.convert_to_uah_from_preserved_by_currency(
                trade.buy_price,
                trade.currency,
                trade.buy_date,
                preserved_rates,
            ) {
                Ok(v) => v,
                Err(e) => {
                    proof {
                        lemma_trades_fold_stops(ps, preserved_rates, ts, i + 1);
                    }
                    return Err(e);
                },
            };
            let buy_price_uah = round_dp(buy, 2);
            let sell = match self.convert_to_uah_from_preserved_by_currency(
                trade.sell_price,
                trade.currency,
                trade.sell_date,
                preserved_rates,
            ) {
                Ok(v) => v,
                Err(e) => {
                    proof {
                        lemma_trades_fold_stops(ps, preserved_rates, ts, i + 1);
                    }
                    return Err(e);
                },
            };
            let sell_price_uah = round_dp(sell, 2);
            let fin_result_uah = dec_sub(sell_price_uah, buy_price_uah);
            let ghost before = trades@;
            trades.push(
                UaTradeReport {
                    buy_date: trade.buy_date,
                    sell_date: trade.sell_date,
                    name: trade.name.clone(),
                    buy_price_uah,
                    sell_price_uah,
                    fin_result_uah,
                },
            );
            total_fin_result = dec_add(total_fin_result, fin_result_uah);
            let tax_spec = match self.tax_policy_by_date(trade.sell_date) {
                Ok(p) => p,
                Err(e) => {
                    proof {
                        lemma_trades_fold_stops(ps, preserved_rates, ts, i + 1);
                    }
                    return Err(e);
                },
            };
            proof {
                lemma_policy_for_date(ps, trade.sell_date);
                let k = choose|k: int| 0 <= k < ps.len() && ps[k] == tax_spec;
                assert(self.tax_policy.sub_policies@[k] == tax_spec);
            }
            let income_tax = dec_mul(fin_result_uah, tax_spec.personal_income_tax);
            let military_tax = dec_mul(fin_result_uah, tax_spec.military_tax);
            total_tax = total_tax.add(UaTax::new(income_tax, military_tax));
            proof {
                assert(trades@.map_values(|l: UaTradeReport| l@) =~= before.map_values(
                    |l: UaTradeReport| l@,
                ).push(trades@[i as int]@));
            }
        }
        proof {
            assert(ts.take(n as int) =~= ts);
        }
        let ghost trades_done = TradesState {
            trades: trades@.map_values(|l: UaTradeReport| l@),
            total_fin: total_fin_result,
            tax: total_tax,
        };
        total_tax = total_tax.round_dp(2);
        let mut income_total = Dec::zero();
        let mut dividend_tax = UaTax::new(Dec::zero(), Dec::zero());
        let k = broker_report.dividends.len();
        for j in 0..k
            invariant
                k == broker_report.dividends@.len(),
                ds == dividend_views(broker_report),
                ts == trade_views(broker_report),
                ps == self.policies(),
                broker_report.wf(),
                preserved_rates.wf(),
                self.tax_policy.wf(),
                trades_fold(ps, preserved_rates, ts) == Ok::<TradesState, ReportErrorView>(
                    trades_done,
                ),
                dividends_fit(ps, preserved_rates, ds),
                dividends_fold(ps, preserved_rates, ds.take(j as int)) == Ok::<
                    DividendsState,
                    ReportErrorView,
                >(DividendsState { income: income_total, tax: dividend_tax }),
                income_total.wf(),
                dividend_tax.wf(),
        {
            let dividend = &broker_report.dividends[j];
            proof {
                assert(ds.take(j + 1).drop_last() =~= ds.take(j as int));
                assert(ds.take(j + 1).last() == dividend@);
                lemma_dividends_fit_prefix(ps, preserved_rates, ds, j + 1);
                assert(dividend.amount.wf());
            }
            let amount = match self.convert_to_uah_from_preserved_by_currency(
                dividend.amount,
                dividend.currency,
                dividend.date,
                preserved_rates,
            ) {
                Ok(v) => v,
                Err(e) => {
                    proof {
                        lemma_dividends_fold_stops(ps, preserved_rates, ds, j + 1);
                    }
                    return Err(e);
                },
            };
            let amount_uah = round_dp(amount, 2);
            income_total = dec_add(income_total, amount_uah);
            let tax_spec = match self.tax_policy_by_date(dividend.date) {
                Ok(p) => p,
                Err(e) => {
                    proof {
                        lemma_dividends_fold_stops(ps, preserved_rates, ds, j + 1);
                    }
                    return Err(e);
                },
            };
            proof {
                lemma_policy_for_date(ps, dividend.date);
                let m = choose|m: int| 0 <= m < ps.len() && ps[m] == tax_spec;
                assert(self.tax_policy.sub_policies@[m] == tax_spec);
            }
            let income_tax = dec_mul(amount_uah, tax_spec.personal_income_tax);
            let military_tax = dec_mul(amount_uah, tax_spec.military_tax);
            dividend_tax = dividend_tax.add(UaTax::new(income_tax, military_tax));
        }
        proof {
            assert(ds.take(k as int) =~= ds);
        }
        let dividend_total_tax = dividend_tax.round_dp(2);
        let rounded_income = round_dp(income_total, 2);
        Ok(
            UaInvestmentTaxReport {
                dividend_ops: UaTaxDividend {
                    income_total: rounded_income,
                    total_tax: dividend_total_tax,
                },
                investment_ops: UaTaxInvestmentOps { trades, total_fin_result, total_tax },
            },
        )
    }
}

impl UaTaxReportGenerator {
    /// Whether converting an amount does not overflow (see `conversion_fits`).
    pub fn conversion_fits_check(
        &self,
        amount: Dec,
        currency: Currency,
        date: Date,
        preserved_rates: &PreservedRates,
    ) -> (res: bool)
        requires
            amount.wf(),
            preserved_rates.wf(),
        ensures
            res == conversion_fits(amount, currency, date, preserved_rates),
    {
        match preserved_rates.get(currency) {
            None => true,
            Some(rates) => {
                let ghost rs = rates@;
                let n = rates.len();
                let mut k: usize = 0;
                while k < n
                    invariant
                        n == rs.len(),
                        rs == rates@,
                        preserved_rates.rates_of(currency) == Some(rs),
                        preserved_rates.wf(),
                        amount.wf(),
                        k <= n,
                        forall|j: int| 0 <= j < k ==> rs[j].date != date,
                    decreases n - k,
                {
                    if rates[k].date == date {
                        proof {
                            lemma_rate_position_found(rs, date, k as int);
                            assert(preserved_rates.rates_of(currency).unwrap()[k as int]
                                == rs[k as int]);
                            assert(rs[k as int].rate.wf());
                        }
                        return mul_fits_check(amount, rates[k].rate);
                    }
                    k = k + 1;
                }
                proof {
                    lemma_rate_position_missing(rs, date);
                }
                true
            },
        }
    }
}

impl UaTaxReportGenerator {
    /// One trade of the check: `None` where its step overflows;
    /// otherwise the totals after it, `None` where the report stops at it.
    fn check_trade_step(
        &self,
        total_fin: Dec,
        total_tax: UaTax,
        trade: &BrokerTrade,
        preserved_rates: &PreservedRates,
    ) -> (res: Option<Option<(Dec, UaTax)>>)
        requires
            total_fin.wf(),
            total_tax.wf(),
            trade.buy_price.wf(),
            trade.sell_price.wf(),
            preserved_rates.wf(),
            self.tax_policy.wf(),
        ensures
            ({
                let s = TradesState { trades: Seq::empty(), total_fin, tax: total_tax };
                &&& res is Some <==> trade_step_fits(self.policies(), preserved_rates, s, trade@)
                &&& res matches Some(r) ==> match trade_step(
                    self.policies(),
                    preserved_rates,
                    s,
                    trade@,
                ) {
                    Err(_) => r is None,
                    Ok(s2) => r matches Some((f, t)) && f == s2.total_fin && t == s2.tax && f.wf()
                        && t.wf(),
                }
            }),
    {
        if !self.conversion_fits_check(
            trade.buy_price,
            trade.currency,
            trade.buy_date,
            preserved_rates,
        ) {
            return None;
        }
        let buy = match self.convert_to_uah_from_preserved_by_currency(
            trade.buy_price,
            trade.currency,
            trade.buy_date,
            preserved_rates,
        ) {
            Ok(v) => v,
            Err(_) => {
                return Some(None);
            },
        };
        if !self.conversion_fits_check(
            trade.sell_price,
            trade.currency,
            trade.sell_date,
            preserved_rates,
        ) {
            return None;
        }
        let sell = match self.convert_to_uah_from_preserved_by_currency(
            trade.sell_price,
            trade.currency,
            trade.sell_date,
            preserved_rates,
        ) {
            Ok(v) => v,
            Err(_) => {
                return Some(None);
            },
        };
        let buy_price_uah = round_dp(buy, 2);
        let sell_price_uah = round_dp(sell, 2);
        if !add_sub_fits_check(sell_price_uah, buy_price_uah, true) {
            return None;
        }
        let fin_result_uah = dec_sub(sell_price_uah, buy_price_uah);
        if !add_sub_fits_check(total_fin, fin_result_uah, false) {
            return None;
        }
        let tax_spec = match self.tax_policy_by_date(trade.sell_date) {
            Ok(p) => p,
            Err(_) => {
                return Some(None);
            },
        };
        proof {
            let ps = self.policies();
            lemma_policy_for_date(ps, trade.sell_date);
            let k = choose|k: int| 0 <= k < ps.len() && ps[k] == tax_spec;
            assert(self.tax_policy.sub_policies@[k] == tax_spec);
        }
        if !mul_fits_check(fin_result_uah, tax_spec.personal_income_tax) || !mul_fits_check(
            fin_result_uah,
            tax_spec.military_tax,
        ) {
            return None;
        }
        let income_tax = dec_mul(fin_result_uah, tax_spec.personal_income_tax);
        let military_tax = dec_mul(fin_result_uah, tax_spec.military_tax);
        if !add_sub_fits_check(total_tax.personal_income_tax, income_tax, false)
            || !add_sub_fits_check(total_tax.military_tax, military_tax, false) {
            return None;
        }
        Some(
            Some(
                (
                    dec_add(total_fin, fin_result_uah),
                    total_tax.add(UaTax::new(income_tax, military_tax)),
                ),
            ),
        )
    }

    /// One dividend of the check: `None` where its step overflows;
    /// otherwise the totals after it, `None` where the report stops at it.
    fn check_dividend_step(
        &self,
        income: Dec,
        total_tax: UaTax,
        dividend: &BrokerDividend,
        preserved_rates: &PreservedRates,
    ) -> (res: Option<Option<(Dec, UaTax)>>)
        requires
            income.wf(),
            total_tax.wf(),
            dividend.amount.wf(),
            preserved_rates.wf(),
            self.tax_policy.wf(),
        ensures
            ({
                let s = DividendsState { income, tax: total_tax };
                &&& res is Some <==> dividend_step_fits(
                    self.policies(),
                    preserved_rates,
                    s,
                    dividend@,
                )
                &&& res matches Some(r) ==> match dividend_step(
                    self.policies(),
                    preserved_rates,
                    s,
                    dividend@,
                ) {
                    Err(_) => r is None,
                    Ok(s2) => r matches Some((f, t)) && f == s2.income && t == s2.tax && f.wf()
                        && t.wf(),
                }
            }),
    {
        if !self.conversion_fits_check(
            dividend.amount,
            dividend.currency,
            dividend.date,
            preserved_rates,
        ) {
            return None;
        }
        let amount = match self.convert_to_uah_from_preserved_by_currency(
            dividend.amount,
            dividend.currency,
            dividend.date,
            preserved_rates,
        ) {
            Ok(v) => v,
            Err(_) => {
                return Some(None);
            },
        };
        let amount_uah = round_dp(amount, 2);
        if !add_sub_fits_check(income, amount_uah, false) {
            return None;
        }
        let tax_spec = match self.tax_policy_by_date(dividend.date) {
            Ok(p) => p,
            Err(_) => {
                return Some(None);
            },
        };
        proof {
            let ps = self.policies();
            lemma_policy_for_date(ps, dividend.date);
            let m = choose|m: int| 0 <= m < ps.len() && ps[m] == tax_spec;
            assert(self.tax_policy.sub_policies@[m] == tax_spec);
        }
        if !mul_fits_check(amount_uah, tax_spec.personal_income_tax) || !mul_fits_check(
            amount_uah,
            tax_spec.military_tax,
        ) {
            return None;
        }
        let income_tax = dec_mul(amount_uah, tax_spec.personal_income_tax);
        let military_tax = dec_mul(amount_uah, tax_spec.military_tax);
        if !add_sub_fits_check(total_tax.personal_income_tax, income_tax, false)
            || !add_sub_fits_check(total_tax.military_tax, military_tax, false) {
            return None;
        }
        Some(
            Some((dec_add(income, amount_uah), total_tax.add(UaTax::new(income_tax, military_tax)))),
        )
    }

    /// Whether the report of `broker_report` overflows nowhere (see
    /// `tax_computation_fits`): the condition under which
    /// `get_unformal_tax_report` may be called.
    pub fn tax_computation_fits_check(
        &self,
        broker_report: &BrokerReport,
        preserved_rates: &PreservedRates,
    ) -> (res: bool)
        requires
            broker_report.wf(),
            preserved_rates.wf(),
            self.tax_policy.wf(),
        ensures
            res == tax_computation_fits(
                self.policies(),
                preserved_rates,
                trade_views(broker_report),
                dividend_views(broker_report),
            ),
    {
        let ghost ps = self.policies();
        let ghost ts = trade_views(broker_report);
        let ghost ds = dividend_views(broker_report);
        let mut total_fin_result = Dec::zero();
        let mut total_tax = UaTax::new(Dec::zero(), Dec::zero());
        let n = broker_report.trades.len();
        for i in 0..n
            invariant
                n == broker_report.trades@.len(),
                ts == trade_views(broker_report),
                ps == self.policies(),
                broker_report.wf(),
                preserved_rates.wf(),
                self.tax_policy.wf(),
                trades_fit(ps, preserved_rates, ts.take(i as int)),
                trades_fold(ps, preserved_rates, ts.take(i as int)) matches Ok(st)
                    && st.total_fin == total_fin_result && st.tax == total_tax,
                total_fin_result.wf(),
                total_tax.wf(),
        {
            let trade = &broker_report.trades[i];
            proof {
                lemma_trade_step_needed(ps, preserved_rates, ts, i as int);
                assert(ts[i as int] == trade@);
                assert(trade.buy_price.wf() && trade.sell_price.wf());
            }
            match self.check_trade_step(total_fin_result, total_tax, trade, preserved_rates) {
                None => {
                    return false;
                },
                Some(None) => {
                    proof {
                        assert(ts.take(i + 1).drop_last() =~= ts.take(i as int));
                        lemma_trades_fit_stops(ps, preserved_rates, ts, i + 1);
                        lemma_trades_fold_stops(ps, preserved_rates, ts, i + 1);
                    }
                    return true;
                },
                Some(Some((f, t))) => {
                    proof {
                        assert(ts.take(i + 1).drop_last() =~= ts.take(i as int));
                    }
                    total_fin_result = f;
                    total_tax = t;
                },
            }
        }
        proof {
            assert(ts.take(n as int) =~= ts);
        }
        let mut income_total = Dec::zero();
        let mut dividend_tax = UaTax::new(Dec::zero(), Dec::zero());
        let k = broker_report.dividends.len();
        for j in 0..k
            invariant
                k == broker_report.dividends@.len(),
                ds == dividend_views(broker_report),
                ts == trade_views(broker_report),
                ps == self.policies(),
                broker_report.wf(),
                preserved_rates.wf(),
                self.tax_policy.wf(),
                trades_fit(ps, preserved_rates, ts),
                trades_fold(ps, preserved_rates, ts) is Ok,
                dividends_fit(ps, preserved_rates, ds.take(j as int)),
                dividends_fold(ps, preserved_rates, ds.take(j as int)) == Ok::<
                    DividendsState,
                    ReportErrorView,
                >(DividendsState { income: income_total, tax: dividend_tax }),
                income_total.wf(),
                dividend_tax.wf(),
        {
            let dividend = &broker_report.dividends[j];
            proof {
                lemma_dividend_step_needed(ps, preserved_rates, ds, j as int);
                assert(ds[j as int] == dividend@);
                assert(dividend.amount.wf());
            }
            match self.check_dividend_step(income_total, dividend_tax, dividend, preserved_rates) {
                None => {
                    return false;
                },
                Some(None) => {
                    proof {
                        assert(ds.take(j + 1).drop_last() =~= ds.take(j as int));
                        lemma_dividends_fit_stops(ps, preserved_rates, ds, j + 1);
                    }
                    return true;
                },
                Some(Some((f, t))) => {
                    proof {
                        assert(ds.take(j + 1).drop_last() =~= ds.take(j as int));
                    }
                    income_total = f;
                    dividend_tax = t;
                },
            }
        }
        proof {
            assert(ds.take(k as int) =~= ds);
        }
        true
    }
}

} // verus!
