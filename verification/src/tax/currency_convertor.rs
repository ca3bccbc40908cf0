//! Currencies and exchange rates between them.
use vstd::prelude::*;
use vstd::string::*;
use crate::date::Date;
use crate::decimal::Dec;
use crate::text::str_eq;

verus! {

#[derive(Debug)]
pub enum CurrencyConvertorError {
    CurrencyNotSupported { details: String },
}

#[derive(Debug, PartialEq, Eq, Structural, Copy, Clone, Hash)]
pub enum Currency {
    UAH,
    USD,
    EUR,
}

/// The currency with the given code, if any.
pub open spec fn currency_of_code(s: Seq<char>) -> Option<Currency> {
    if s == Currency::UAH.code() {
        Some(Currency::UAH)
    } else if s == Currency::USD.code() {
        Some(Currency::USD)
    } else if s == Currency::EUR.code() {
        Some(Currency::EUR)
    } else {
        None
    }
}

impl Currency {
    /// The three-letter code of the currency.
    pub open spec fn code(self) -> Seq<char> {
        match self {
            Currency::UAH => "UAH"@,
            Currency::USD => "USD"@,
            Currency::EUR => "EUR"@,
        }
    }

    /// The currency with the given code; any other text is not supported,
    /// and the error's details are the text itself.
    pub fn from_str(s: &str) -> (res: Result<Currency, CurrencyConvertorError>)
        ensures
            match res {
                Ok(c) => c.code() == s@,
                Err(CurrencyConvertorError::CurrencyNotSupported { details }) => details@ == s@
                    && forall|c: Currency| c.code() != s@,
            },
            match res {
                Ok(c) => currency_of_code(s@) == Some(c),
                Err(_) => currency_of_code(s@) is None,
            },
    {
        proof {
            lemma_codes_distinct(Currency::UAH, Currency::USD);
            lemma_codes_distinct(Currency::UAH, Currency::EUR);
            lemma_codes_distinct(Currency::USD, Currency::EUR);
        }
        if str_eq(s, "UAH") {
            Ok(Currency::UAH)
        } else if str_eq(s, "USD") {
            Ok(Currency::USD)
        } else if str_eq(s, "EUR") {
            Ok(Currency::EUR)
        } else {
            proof {
                assert forall|c: Currency| c.code() != s@ by {
                    match c {
                        Currency::UAH => {},
                        Currency::USD => {},
                        Currency::EUR => {},
                    }
                }
            }
            Err(CurrencyConvertorError::CurrencyNotSupported { details: String::from_str(s) })
        }
    }

    /// The three-letter code of the currency, as `{}` and `{:?}` write it.
    pub fn to_string(&self) -> (res: String)
        ensures
            res@ == self.code(),
    {
        match self {
            Currency::UAH => String::from_str("UAH"),
            Currency::USD => String::from_str("USD"),
            Currency::EUR => String::from_str("EUR"),
        }
    }
}

/// Different currencies have different codes.
pub proof fn lemma_codes_distinct(a: Currency, b: Currency)
    ensures
        a.code() == b.code() <==> a == b,
{
    reveal_strlit("UAH");
    reveal_strlit("USD");
    reveal_strlit("EUR");
    if a != b {
        match (a, b) {
            (Currency::UAH, _) => assert(a.code()[1] != b.code()[1]),
            (Currency::USD, Currency::UAH) => assert(a.code()[1] != b.code()[1]),
            (_, _) => assert(a.code()[0] != b.code()[0]),
        }
    }
}

/// Reading a currency's code gives the currency back: `from_str` undoes
/// `to_string`.
pub proof fn lemma_currency_code_roundtrip(c: Currency)
    ensures
        currency_of_code(c.code()) == Some(c),
{
    lemma_codes_distinct(c, Currency::UAH);
    lemma_codes_distinct(c, Currency::USD);
    lemma_codes_distinct(c, Currency::EUR);
}

/// How much of the `to` currency buys one unit of the `from` currency on a
/// date.
#[derive(Debug, Clone, Copy, PartialEq, Eq, Structural)]
pub struct CurrencyRate {
    pub from: Currency,
    pub to: Currency,
    pub rate: Dec,
    pub date: Date,
}

} // verus!
