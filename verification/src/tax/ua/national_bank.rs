//! Exchange rates of the National Bank of Ukraine (NBU).
//!
//! The NBU publishes, for a currency and a range of dates, one record per
//! date with the rate in hryvnias. Fetching those records is done by the
//! caller; this module checks what may be asked and turns the records into
//! rates.
use vstd::prelude::*;
use vstd::string::*;
use crate::date::{naive_date_parse, parse_date, Date};
use crate::decimal::{decimal_from_str, parse};
use crate::tax::currency_convertor::{Currency, CurrencyConvertorError, CurrencyRate};
use crate::text::{digits, u64_to_text};

verus! {

/// One record of the NBU exchange feed, every element as text.
#[derive(Debug, PartialEq, Default)]
pub struct XmlCurrency {
    pub exchangedate: String,
    pub r030: String,
    pub cc: String,
    pub txt: String,
    pub enname: String,
    pub rate: String,
    pub units: String,
    pub rate_per_unit: String,
    pub group: String,
    pub calcdate: String,
}

/// The records of the NBU exchange feed.
#[derive(Debug, PartialEq, Default)]
pub struct XmlExchange {
    pub currencies: Vec<XmlCurrency>,
}

pub struct NationalBank {}

/// The format of the feed's dates.
pub open spec fn nbu_date_format() -> Seq<char> {
    "%d.%m.%Y"@
}

/// The record's rate reads as a decimal and its date as a date.
pub open spec fn record_parses(r: XmlCurrency) -> bool {
    &&& decimal_from_str(r.rate@) is Some
    &&& naive_date_parse(r.exchangedate@, nbu_date_format()) is Some
}

/// Every record of the feed parses.
pub open spec fn exchange_parses(e: XmlExchange) -> bool {
    forall|i: int| 0 <= i < e.currencies@.len() ==> record_parses(#[trigger] e.currencies@[i])
}

/// The rate that a record stands for.
pub open spec fn rate_of_record(from: Currency, to: Currency, r: XmlCurrency) -> CurrencyRate {
    CurrencyRate {
        from,
        to,
        rate: decimal_from_str(r.rate@).unwrap(),
        date: naive_date_parse(r.exchangedate@, nbu_date_format()).unwrap(),
    }
}

/// A record's rate takes its date from `exchangedate` alone and its value
/// from `rate` alone: records that agree on those give the same rate,
/// whatever else (`calcdate` among them) they hold.
pub proof fn lemma_record_fields(from: Currency, to: Currency, a: XmlCurrency, b: XmlCurrency)
    ensures
        a.exchangedate@ == b.exchangedate@ ==> rate_of_record(from, to, a).date == rate_of_record(
            from,
            to,
            b,
        ).date,
        a.rate@ == b.rate@ ==> rate_of_record(from, to, a).rate == rate_of_record(from, to, b).rate,
        rate_of_record(from, to, a).from == from && rate_of_record(from, to, a).to == to,
        record_parses(a) ==> rate_of_record(from, to, a).date == naive_date_parse(
            a.exchangedate@,
            "%d.%m.%Y"@,
        ).unwrap(),
{
}

/// The NBU quotes rates into hryvnias only, and of currencies other than the
/// hryvnia; the message names the `from` currency.
pub open spec fn pair_check(from: Currency, to: Currency, res: Result<(), CurrencyConvertorError>) -> bool {
    if to != Currency::UAH {
        res matches Err(CurrencyConvertorError::CurrencyNotSupported { details }) && details@
            == "Currency not supported: "@ + from.code()
    } else if from == Currency::UAH {
        res matches Err(CurrencyConvertorError::CurrencyNotSupported { details }) && details@
            == "'From' currency can't be: "@ + from.code()
    } else {
        res is Ok
    }
}

/// The message for a range that does not hold exactly one rate.
pub open spec fn not_one_rate_message(from: Currency, to: Currency, date: Date, len: nat) -> Seq<
    char,
> {
    "Error converting currency: from "@ + from.code() + " to "@ + to.code() + " on date "@
        + date.text() + ", len = "@ + digits(len)
}

/// A currency's code in lower case, as the NBU feed's query takes it.
pub open spec fn lower_code(c: Currency) -> Seq<char> {
    match c {
        Currency::UAH => "uah"@,
        Currency::USD => "usd"@,
        Currency::EUR => "eur"@,
    }
}

/// The address of the NBU exchange feed of a currency from `start_date` to
/// `end_date` (dates as `YYYYMMDD`), newest date first.
pub open spec fn nbu_url_text(currency: Currency, start_date: Date, end_date: Date) -> Seq<char> {
    "https://bank.gov.ua/NBU_Exchange/exchange_site?start="@ + start_date.compact_text()
        + "&end="@ + end_date.compact_text() + "&valcode="@ + lower_code(currency)
        + "&sort=exchangedate&order=desc"@
}

/// The address of the NBU exchange feed (see `nbu_url_text`).
pub fn nbu_exchange_url(currency: Currency, start_date: Date, end_date: Date) -> (res: String)
    ensures
        res@ == nbu_url_text(currency, start_date, end_date),
{
    let code = match currency {
        Currency::UAH => "uah",
        Currency::USD => "usd",
        Currency::EUR => "eur",
    };
    String::from_str("https://bank.gov.ua/NBU_Exchange/exchange_site?start=").concat(
        start_date.to_compact_string().as_str(),
    ).concat("&end=").concat(end_date.to_compact_string().as_str()).concat("&valcode=").concat(
        code,
    ).concat("&sort=exchangedate&order=desc")
}

impl NationalBank {
    /// Whether the NBU can give rates from `from` to `to`.
    pub fn check_currency_pair(from: Currency, to: Currency) -> (res: Result<
        (),
        CurrencyConvertorError,
    >)
        ensures
            pair_check(from, to, res),
    {
        if to != Currency::UAH {
            let details = String::from_str("Currency not supported: ").concat(
                from.to_string().as_str(),
            );
            return Err(CurrencyConvertorError::CurrencyNotSupported { details });
        }
        if from == Currency::UAH {
            let details = String::from_str("'From' currency can't be: ").concat(
                from.to_string().as_str(),
            );
            return Err(CurrencyConvertorError::CurrencyNotSupported { details });
        }
        Ok(())
    }

    /// The rate of one record of the feed.
    pub fn rate_from_record(from: Currency, to: Currency, record: &XmlCurrency) -> (res:
        CurrencyRate)
        requires
            record_parses(*record),
        ensures
            res == rate_of_record(from, to, *record),
            res.rate.wf(),
    {
        let rate = parse(record.rate.as_str());
        let date = parse_date(record.exchangedate.as_str(), "%d.%m.%Y");
        CurrencyRate { from, to, rate: rate.unwrap(), date: date.unwrap() }
    }

    /// The rates of all records of the feed, in the feed's order.
    pub fn rates_from_exchange(from: Currency, to: Currency, exchange: &XmlExchange) -> (res: Vec<
        CurrencyRate,
    >)
        requires
            exchange_parses(*exchange),
        ensures
            res@.len() == exchange.currencies@.len(),
            forall|i: int|
                0 <= i < res@.len() ==> #[trigger] res@[i] == rate_of_record(
                    from,
                    to,
                    exchange.currencies@[i],
                ),
            forall|i: int| 0 <= i < res@.len() ==> (#[trigger] res@[i]).rate.wf(),
    {
        let mut rates: Vec<CurrencyRate> = Vec::new();
        let n = exchange.currencies.len();
        for i in 0..n
            invariant
                n == exchange.currencies@.len(),
                exchange_parses(*exchange),
                rates@.len() == i,
                forall|j: int|
                    0 <= j < i ==> #[trigger] rates@[j] == rate_of_record(
                        from,
                        to,
                        exchange.currencies@[j],
                    ),
                forall|j: int| 0 <= j < i ==> (#[trigger] rates@[j]).rate.wf(),
        {
            let rate = Self::rate_from_record(from, to, &exchange.currencies[i]);
            rates.push(rate);
        }
        rates
    }

    /// Whether every record of the feed parses.
    pub fn exchange_is_readable(exchange: &XmlExchange) -> (res: bool)
        ensures
            res == exchange_parses(*exchange),
    {
        let n = exchange.currencies.len();
        for i in 0..n
            invariant
                n == exchange.currencies@.len(),
                forall|j: int| 0 <= j < i ==> record_parses(#[trigger] exchange.currencies@[j]),
        {
            let r = &exchange.currencies[i];
            let rate = parse(r.rate.as_str());
            let date = parse_date(r.exchangedate.as_str(), "%d.%m.%Y");
            if rate.is_none() || date.is_none() {
                assert(!record_parses(exchange.currencies@[i as int]));
                return false;
            }
        }
        true
    }

    /// The rates from `from` to `to` over a range of dates, given what the
    /// NBU feed returned for that range (`fetched`): an unsupported pair gives
    /// its error whatever was fetched; a failed fetch gives the fetch's
    /// error; otherwise one rate per record, in the feed's order. Every
    /// record of a fetched feed must read (`checked_convert_range` tells).
    pub fn convert_range(
        &self,
        from: Currency,
        to: Currency,
        fetched: Result<XmlExchange, CurrencyConvertorError>,
    ) -> (res: Result<Vec<CurrencyRate>, CurrencyConvertorError>)
        requires
            to == Currency::UAH && from != Currency::UAH ==> (fetched matches Ok(e)
                ==> exchange_parses(e)),
        ensures
            !(to == Currency::UAH && from != Currency::UAH) ==> pair_check(
                from,
                to,
                match res {
                    Ok(_) => Ok(()),
                    Err(e) => Err(e),
                },
            ),
            to == Currency::UAH && from != Currency::UAH ==> match fetched {
                Err(e) => res == Err::<Vec<CurrencyRate>, CurrencyConvertorError>(e),
                Ok(exchange) => res matches Ok(rates) && rates@.len()
                    == exchange.currencies@.len() && forall|i: int|
                    0 <= i < rates@.len() ==> #[trigger] rates@[i] == rate_of_record(
                        from,
                        to,
                        exchange.currencies@[i],
                    ) && rates@[i].rate.wf(),
            },
    {
        match Self::check_currency_pair(from, to) {
            Err(e) => Err(e),
            Ok(()) => match fetched {
                Err(e) => Err(e),
                Ok(exchange) => Ok(Self::rates_from_exchange(from, to, &exchange)),
            },
        }
    }

    /// `convert_range` for any feed: `None` where the pair is supported, the
    /// fetch succeeded and some record does not parse (where `convert_range`
    /// has no result), otherwise `convert_range`'s result.
    pub fn checked_convert_range(
        &self,
        from: Currency,
        to: Currency,
        fetched: Result<XmlExchange, CurrencyConvertorError>,
    ) -> (res: Option<Result<Vec<CurrencyRate>, CurrencyConvertorError>>)
        ensures
            res is None <==> (to == Currency::UAH && from != Currency::UAH && (fetched matches Ok(
                e,
            ) && !exchange_parses(e))),
            res matches Some(r) ==> {
                &&& !(to == Currency::UAH && from != Currency::UAH) ==> pair_check(
                    from,
                    to,
                    match r {
                        Ok(_) => Ok(()),
                        Err(e) => Err(e),
                    },
                )
                &&& to == Currency::UAH && from != Currency::UAH ==> match fetched {
                    Err(e) => r == Err::<Vec<CurrencyRate>, CurrencyConvertorError>(e),
                    Ok(exchange) => r matches Ok(rates) && rates@.len()
                        == exchange.currencies@.len() && forall|i: int|
                        0 <= i < rates@.len() ==> #[trigger] rates@[i] == rate_of_record(
                            from,
                            to,
                            exchange.currencies@[i],
                        ) && rates@[i].rate.wf(),
                }
            },
    {
        if to == Currency::UAH && from != Currency::UAH {
            if let Ok(exchange) = &fetched {
                if !Self::exchange_is_readable(exchange) {
                    return None;
                }
            }
        }
        Some(self.convert_range(from, to, fetched))
    }

    /// The rate on one date, given the rates found for the range from that
    /// date to itself (`range`): exactly one rate gives it; any other number
    /// of rates gives an error that names the pair, the date and the number;
    /// an error is passed on.
    pub fn convert(
        &self,
        from: Currency,
        to: Currency,
        date: Date,
        range: Result<Vec<CurrencyRate>, CurrencyConvertorError>,
    ) -> (res: Result<CurrencyRate, CurrencyConvertorError>)
        ensures
            match range {
                Err(e) => res == Err::<CurrencyRate, CurrencyConvertorError>(e),
                Ok(rates) => if rates@.len() == 1 {
                    res == Ok::<CurrencyRate, CurrencyConvertorError>(rates@[0])
                } else {
                    res matches Err(CurrencyConvertorError::CurrencyNotSupported { details })
                        && details@ == not_one_rate_message(from, to, date, rates@.len())
                },
            },
    {
        match range {
            Ok(mut rates) => {
                if rates.len() == 1 {
                    Ok(rates.remove(0))
                } else {
                    let details = String::from_str("Error converting currency: from ").concat(
                        from.to_string().as_str(),
                    ).concat(" to ").concat(to.to_string().as_str()).concat(" on date ").concat(
                        date.to_string().as_str(),
                    ).concat(", len = ").concat(u64_to_text(rates.len() as u64).as_str());
                    Err(CurrencyConvertorError::CurrencyNotSupported { details })
                }
            },
            Err(e) => Err(e),
        }
    }
}

} // verus!
